//! Hybrid (X25519 + ML-KEM-768) end-to-end message encryption.
//!
//! A message is encrypted once under a fresh 32-byte master key with ChaCha20-Poly1305.
//! The master key is then wrapped once per reader in an envelope: an ephemeral X25519
//! exchange and an ML-KEM-768 encapsulation give two shared secrets, whose SHA-256 digest
//! is the key that wraps the master key (under the all-zero nonce). A reader tries the
//! envelopes in order until one opens.
use vstd::prelude::*;

use crate::bytes::{concat_bytes, exact_array, prefix_array, zeros};
use crate::primitives::{
    aead_decrypt, aead_encrypt, aead_len_ok, b64_decode, b64_encode, base64_decode, base64_encode,
    chacha_open, chacha_seal, mlkem_accepts, mlkem_decapsulate, mlkem_decapsulate_with,
    mlkem_encapsulate, mlkem_encapsulate_with, mlkem_public_of_seed, random_bytes_12,
    random_bytes_32, sha256, sha256_digest, x25519_agree, x25519_public, x25519_public_key,
    x25519_shared,
};

verus! {

/// A user's two public keys, as raw bytes.
pub struct UserPublicKeys {
    pub x25519: [u8; 32],
    pub mlkem: [u8; 1184],
}

/// A user's two public keys, as base64 text.
pub struct UserPublicKeyStrings {
    pub x25519: String,
    pub mlkem: String,
}

/// One reader's wrapped copy of a message's master key; every field is base64 text.
pub struct Envelope {
    pub ephemeral_x25519: String,
    pub pq_ciphertext: String,
    pub encrypted_master_key: String,
}

/// The text of an envelope's three fields.
pub struct EnvelopeView {
    pub ephemeral_x25519: Seq<char>,
    pub pq_ciphertext: Seq<char>,
    pub encrypted_master_key: Seq<char>,
}

impl View for Envelope {
    type V = EnvelopeView;

    open spec fn view(&self) -> EnvelopeView {
        EnvelopeView {
            ephemeral_x25519: self.ephemeral_x25519@,
            pq_ciphertext: self.pq_ciphertext@,
            encrypted_master_key: self.encrypted_master_key@,
        }
    }
}

/// An encrypted message as the sender uploads it.
pub struct OutboundMessagePayload {
    pub conv_id: u128,
    pub ciphertext: String,
    pub nonce: String,
    pub envelopes: Vec<Envelope>,
}

/// An encrypted message as a reader downloads it.
pub struct InboundMessagePayload {
    pub msg_id: u128,
    pub conv_id: u128,
    pub ciphertext: String,
    pub nonce: String,
    pub envelopes: Vec<Envelope>,
}

/// Why one envelope did not yield the message.
#[derive(Clone, Copy, PartialEq, Eq, Structural, Debug)]
pub enum DecryptFailure {
    /// A field of the envelope is not base64, or the ML-KEM ciphertext has the wrong length.
    MalformedEnvelope,
    /// The wrapped master key did not authenticate under this reader's key-encryption key.
    EnvelopeRejected,
    /// The message ciphertext or nonce is not base64.
    MalformedPayload,
    /// The message ciphertext did not authenticate under the unwrapped master key.
    PayloadRejected,
}

/// What trying one envelope gives.
pub enum TrackOutcome {
    /// The envelope opened and the message decrypted to these bytes.
    Opened(Vec<u8>),
    /// The envelope did not yield the message.
    Rejected(DecryptFailure),
    /// The input is malformed in a way that the decryption procedure cannot handle
    /// (an ephemeral key shorter than 32 bytes, an unwrapped master key shorter than
    /// 32 bytes, or a message nonce that is not 12 bytes long).
    Aborted,
}

/// What trying one envelope gives, as mathematical values.
pub enum TrackView {
    Opened(Seq<u8>),
    Rejected(DecryptFailure),
    Aborted,
}

impl View for TrackOutcome {
    type V = TrackView;

    open spec fn view(&self) -> TrackView {
        match self {
            TrackOutcome::Opened(p) => TrackView::Opened(p@),
            TrackOutcome::Rejected(f) => TrackView::Rejected(*f),
            TrackOutcome::Aborted => TrackView::Aborted,
        }
    }
}

/// The nonce under which master keys are wrapped: twelve zero bytes.
pub open spec fn envelope_nonce() -> Seq<u8> {
    zeros(12)
}

/// The envelope that wraps `master_key` for a reader with public keys `x25519` and `mlkem`,
/// using the ephemeral X25519 secret `eph` and the ML-KEM randomness `m`.
pub open spec fn seal_envelope_spec(
    x25519: Seq<u8>,
    mlkem: Seq<u8>,
    master_key: Seq<u8>,
    eph: Seq<u8>,
    m: Seq<u8>,
) -> EnvelopeView {
    let eph_public = x25519_public(eph)@;
    let shared = x25519_shared(eph, x25519)@;
    let kem = mlkem_encapsulate(mlkem, m);
    let kek = sha256(shared + kem.1@)@;
    EnvelopeView {
        ephemeral_x25519: b64_encode(eph_public),
        pq_ciphertext: b64_encode(kem.0@),
        encrypted_master_key: b64_encode(chacha_seal(kek, envelope_nonce(), master_key)),
    }
}

/// What trying the envelope `env` on the message (`ciphertext_b64`, `nonce_b64`) gives a reader
/// with X25519 secret `x_secret` and ML-KEM seed `kem_seed`, step by step as the procedure runs.
pub open spec fn track_spec(
    ciphertext_b64: Seq<char>,
    nonce_b64: Seq<char>,
    env: EnvelopeView,
    x_secret: Seq<u8>,
    kem_seed: Seq<u8>,
) -> TrackView {
    let eph = b64_decode(env.ephemeral_x25519);
    let pq = b64_decode(env.pq_ciphertext);
    let wrapped = b64_decode(env.encrypted_master_key);
    if eph is None || pq is None || wrapped is None {
        TrackView::Rejected(DecryptFailure::MalformedEnvelope)
    } else if eph->0.len() < 32 {
        TrackView::Aborted
    } else if pq->0.len() != 1088 {
        TrackView::Rejected(DecryptFailure::MalformedEnvelope)
    } else {
        let shared = x25519_shared(x_secret, eph->0.take(32))@;
        let kem_key = mlkem_decapsulate(kem_seed, pq->0)@;
        let kek = sha256(shared + kem_key)@;
        match chacha_open(kek, envelope_nonce(), wrapped->0) {
            None => TrackView::Rejected(DecryptFailure::EnvelopeRejected),
            Some(master) => {
                if master.len() < 32 {
                    TrackView::Aborted
                } else {
                    let ct = b64_decode(ciphertext_b64);
                    let nonce = b64_decode(nonce_b64);
                    if ct is None || nonce is None {
                        TrackView::Rejected(DecryptFailure::MalformedPayload)
                    } else if nonce->0.len() != 12 {
                        TrackView::Aborted
                    } else {
                        match chacha_open(master.take(32), nonce->0, ct->0) {
                            None => TrackView::Rejected(DecryptFailure::PayloadRejected),
                            Some(p) => TrackView::Opened(p),
                        }
                    }
                }
            },
        }
    }
}

/// The envelope `env` and the message text (`ciphertext_b64`, `nonce_b64`) are what sealing
/// `inner` for the reader with public keys (`x_public`, `kem_public`) produced, with master key
/// `master`, message nonce `nonce`, ephemeral secret `eph` and ML-KEM randomness `m`.
pub open spec fn sealed_pair(
    ciphertext_b64: Seq<char>,
    nonce_b64: Seq<char>,
    env: EnvelopeView,
    x_public: Seq<u8>,
    kem_public: Seq<u8>,
    inner: Seq<u8>,
    master: Seq<u8>,
    nonce: Seq<u8>,
    eph: Seq<u8>,
    m: Seq<u8>,
) -> bool {
    &&& env == seal_envelope_spec(x_public, kem_public, master, eph, m)
    &&& ciphertext_b64 == b64_encode(chacha_seal(master, nonce, inner))
    &&& nonce_b64 == b64_encode(nonce)
    &&& master.len() == 32
    &&& nonce.len() == 12
    &&& eph.len() == 32
    &&& aead_len_ok(inner.len())
}

/// ML-KEM-768 decapsulation with the key made from `kem_seed` recovers the shared key that
/// encapsulation with randomness `m` under the matching public key produced. (ML-KEM promises
/// this except with negligible probability; the laws below take it as a hypothesis.)
pub open spec fn kem_round_trips(kem_seed: Seq<u8>, m: Seq<u8>) -> bool {
    let kem = mlkem_encapsulate(mlkem_public_of_seed(kem_seed)@, m);
    mlkem_decapsulate(kem_seed, kem.0@) == kem.1
}

/// The envelope law: an envelope sealed for a reader's public keys opens, under that reader's
/// secret keys, to the message that was sealed.
pub open spec fn track_law(
    ciphertext_b64: Seq<char>,
    nonce_b64: Seq<char>,
    env: EnvelopeView,
    x_secret: Seq<u8>,
    kem_seed: Seq<u8>,
) -> bool {
    forall|inner: Seq<u8>, master: Seq<u8>, nonce: Seq<u8>, eph: Seq<u8>, m: Seq<u8>|
        #[trigger] sealed_pair(
            ciphertext_b64,
            nonce_b64,
            env,
            x25519_public(x_secret)@,
            mlkem_public_of_seed(kem_seed)@,
            inner,
            master,
            nonce,
            eph,
            m,
        ) && kem_round_trips(kem_seed, m) ==> track_spec(ciphertext_b64, nonce_b64, env, x_secret, kem_seed)
            == TrackView::Opened(inner)
}

/// Wraps `master_key` for the reader with public keys (`x25519`, `mlkem`), using the ephemeral
/// X25519 secret `eph` and the ML-KEM randomness `m`.
pub fn seal_envelope(
    x25519: &[u8; 32],
    mlkem: &[u8; 1184],
    master_key: &[u8; 32],
    eph: &[u8; 32],
    m: &[u8; 32],
) -> (e: Envelope)
    requires
        mlkem_accepts(mlkem@),
    ensures
        e@ == seal_envelope_spec(x25519@, mlkem@, master_key@, eph@, m@),
{
    let eph_public = x25519_public_key(eph);
    let shared = x25519_agree(eph, x25519);
    let kem = mlkem_encapsulate_with(mlkem, m);
    let (ct, kem_key) = kem.unwrap();
    let combined = concat_bytes(shared.as_slice(), kem_key.as_slice());
    let kek = sha256_digest(combined.as_slice());
    let zero_nonce = [0u8; 12];
    assert(zero_nonce@ =~= envelope_nonce());
    let wrapped = aead_encrypt(&kek, &zero_nonce, master_key.as_slice());
    let wrapped = wrapped.unwrap();
    Envelope {
        ephemeral_x25519: base64_encode(eph_public.as_slice()),
        pq_ciphertext: base64_encode(ct.as_slice()),
        encrypted_master_key: base64_encode(wrapped.as_slice()),
    }
}


/// Tries one envelope: unwraps the master key with the reader's secret keys, then decrypts
/// the message with it. The result is `track_spec`, and the envelope law holds of it.
pub fn execute_envelope_decryption_track(
    main_ciphertext_b64: &str,
    main_nonce_b64: &str,
    envelope: &Envelope,
    my_x25519_private: &[u8; 32],
    my_mlkem_private: &[u8; 64],
) -> (r: TrackOutcome)
    ensures
        r@ == track_spec(main_ciphertext_b64@, main_nonce_b64@, envelope@, my_x25519_private@, my_mlkem_private@),
        track_law(main_ciphertext_b64@, main_nonce_b64@, envelope@, my_x25519_private@, my_mlkem_private@),
{
    let ghost ct_t = main_ciphertext_b64@;
    let ghost nonce_t = main_nonce_b64@;
    let ghost env = envelope@;
    let ghost xs = my_x25519_private@;
    let ghost seed = my_mlkem_private@;
    let ghost x_pub = x25519_public(xs)@;
    let ghost kem_pub = mlkem_public_of_seed(seed)@;
    let remote_x25519 = base64_decode(envelope.ephemeral_x25519.as_str());
    let remote_pq = base64_decode(envelope.pq_ciphertext.as_str());
    let wrapped = base64_decode(envelope.encrypted_master_key.as_str());
    if remote_x25519.is_none() || remote_pq.is_none() || wrapped.is_none() {
        assert forall|inner: Seq<u8>, master: Seq<u8>, nonce: Seq<u8>, eph: Seq<u8>, m: Seq<u8>|
            #[trigger] sealed_pair(ct_t, nonce_t, env, x_pub, kem_pub, inner, master, nonce, eph, m)
                && kem_round_trips(seed, m) implies track_spec(ct_t, nonce_t, env, xs, seed) == TrackView::Opened(inner) by {
            let kem = mlkem_encapsulate(kem_pub, m);
            let kek = sha256(x25519_shared(eph, x_pub)@ + kem.1@)@;
            assert(b64_encode(x25519_public(eph)@) == env.ephemeral_x25519);
            assert(b64_encode(kem.0@) == env.pq_ciphertext);
            assert(b64_encode(chacha_seal(kek, envelope_nonce(), master)) == env.encrypted_master_key);
        }
        return TrackOutcome::Rejected(DecryptFailure::MalformedEnvelope);
    }
    let remote_x25519 = remote_x25519.unwrap();
    let remote_pq = remote_pq.unwrap();
    let wrapped = wrapped.unwrap();
    if remote_x25519.len() < 32 {
        assert forall|inner: Seq<u8>, master: Seq<u8>, nonce: Seq<u8>, eph: Seq<u8>, m: Seq<u8>|
            #[trigger] sealed_pair(ct_t, nonce_t, env, x_pub, kem_pub, inner, master, nonce, eph, m)
                && kem_round_trips(seed, m) implies track_spec(ct_t, nonce_t, env, xs, seed) == TrackView::Opened(inner) by {
            assert(b64_encode(x25519_public(eph)@) == env.ephemeral_x25519);
        }
        return TrackOutcome::Aborted;
    }
    let remote_public: [u8; 32] = prefix_array::<32>(remote_x25519.as_slice());
    let shared = x25519_agree(my_x25519_private, &remote_public);
    if remote_pq.len() != 1088 {
        assert forall|inner: Seq<u8>, master: Seq<u8>, nonce: Seq<u8>, eph: Seq<u8>, m: Seq<u8>|
            #[trigger] sealed_pair(ct_t, nonce_t, env, x_pub, kem_pub, inner, master, nonce, eph, m)
                && kem_round_trips(seed, m) implies track_spec(ct_t, nonce_t, env, xs, seed) == TrackView::Opened(inner) by {
            let kem = mlkem_encapsulate(kem_pub, m);
            assert(b64_encode(kem.0@) == env.pq_ciphertext);
        }
        return TrackOutcome::Rejected(DecryptFailure::MalformedEnvelope);
    }
    let pq_ct: [u8; 1088] = exact_array::<1088>(remote_pq.as_slice());
    let kem_key = mlkem_decapsulate_with(my_mlkem_private, &pq_ct);
    let combined = concat_bytes(shared.as_slice(), kem_key.as_slice());
    let kek = sha256_digest(combined.as_slice());
    let zero_nonce = [0u8; 12];
    assert(zero_nonce@ =~= envelope_nonce());
    let master = aead_decrypt(&kek, &zero_nonce, wrapped.as_slice());
    assert(remote_x25519@.take(32) == remote_public@);
    if master.is_none() {
        assert forall|inner: Seq<u8>, master: Seq<u8>, nonce: Seq<u8>, eph: Seq<u8>, m: Seq<u8>|
            #[trigger] sealed_pair(ct_t, nonce_t, env, x_pub, kem_pub, inner, master, nonce, eph, m)
                && kem_round_trips(seed, m) implies track_spec(ct_t, nonce_t, env, xs, seed) == TrackView::Opened(inner) by {
            let kem = mlkem_encapsulate(kem_pub, m);
            let kek_s = sha256(x25519_shared(eph, x_pub)@ + kem.1@)@;
            assert(b64_encode(x25519_public(eph)@) == env.ephemeral_x25519);
            assert(remote_x25519@ == x25519_public(eph)@);
            assert(remote_public@ =~= x25519_public(eph)@);
            assert(b64_encode(kem.0@) == env.pq_ciphertext);
            assert(b64_encode(chacha_seal(kek_s, envelope_nonce(), master)) == env.encrypted_master_key);
            assert(shared == x25519_shared(eph, x_pub));
            assert(kek@ == kek_s);
            assert(chacha_seal(kek@, zero_nonce@, master) == wrapped@);
        }
        return TrackOutcome::Rejected(DecryptFailure::EnvelopeRejected);
    }
    let master = master.unwrap();
    if master.len() < 32 {
        assert forall|inner: Seq<u8>, mk: Seq<u8>, nonce: Seq<u8>, eph: Seq<u8>, m: Seq<u8>|
            #[trigger] sealed_pair(ct_t, nonce_t, env, x_pub, kem_pub, inner, mk, nonce, eph, m)
                && kem_round_trips(seed, m) implies track_spec(ct_t, nonce_t, env, xs, seed) == TrackView::Opened(inner) by {
            let kem = mlkem_encapsulate(kem_pub, m);
            let kek_s = sha256(x25519_shared(eph, x_pub)@ + kem.1@)@;
            assert(b64_encode(x25519_public(eph)@) == env.ephemeral_x25519);
            assert(remote_public@ =~= x25519_public(eph)@);
            assert(b64_encode(kem.0@) == env.pq_ciphertext);
            assert(b64_encode(chacha_seal(kek_s, envelope_nonce(), mk)) == env.encrypted_master_key);
            assert(kek@ == kek_s);
            assert(chacha_seal(kek@, zero_nonce@, mk) == wrapped@);
        }
        return TrackOutcome::Aborted;
    }
    let master_key: [u8; 32] = prefix_array::<32>(master.as_slice());
    let raw_ciphertext = base64_decode(main_ciphertext_b64);
    let raw_nonce = base64_decode(main_nonce_b64);
    if raw_ciphertext.is_none() || raw_nonce.is_none() {
        assert forall|inner: Seq<u8>, mk: Seq<u8>, nonce: Seq<u8>, eph: Seq<u8>, m: Seq<u8>|
            #[trigger] sealed_pair(ct_t, nonce_t, env, x_pub, kem_pub, inner, mk, nonce, eph, m)
                && kem_round_trips(seed, m) implies track_spec(ct_t, nonce_t, env, xs, seed) == TrackView::Opened(inner) by {
            assert(b64_encode(chacha_seal(mk, nonce, inner)) == ct_t);
            assert(b64_encode(nonce) == nonce_t);
        }
        return TrackOutcome::Rejected(DecryptFailure::MalformedPayload);
    }
    let raw_ciphertext = raw_ciphertext.unwrap();
    let raw_nonce = raw_nonce.unwrap();
    if raw_nonce.len() != 12 {
        assert forall|inner: Seq<u8>, mk: Seq<u8>, nonce: Seq<u8>, eph: Seq<u8>, m: Seq<u8>|
            #[trigger] sealed_pair(ct_t, nonce_t, env, x_pub, kem_pub, inner, mk, nonce, eph, m)
                && kem_round_trips(seed, m) implies track_spec(ct_t, nonce_t, env, xs, seed) == TrackView::Opened(inner) by {
            assert(b64_encode(nonce) == nonce_t);
        }
        return TrackOutcome::Aborted;
    }
    let nonce_arr: [u8; 12] = exact_array::<12>(raw_nonce.as_slice());
    let plain = aead_decrypt(&master_key, &nonce_arr, raw_ciphertext.as_slice());
    assert forall|inner: Seq<u8>, mk: Seq<u8>, nonce: Seq<u8>, eph: Seq<u8>, m: Seq<u8>|
        #[trigger] sealed_pair(ct_t, nonce_t, env, x_pub, kem_pub, inner, mk, nonce, eph, m)
            && kem_round_trips(seed, m) implies track_spec(ct_t, nonce_t, env, xs, seed) == TrackView::Opened(inner) by {
        let kem = mlkem_encapsulate(kem_pub, m);
        let kek_s = sha256(x25519_shared(eph, x_pub)@ + kem.1@)@;
        assert(b64_encode(x25519_public(eph)@) == env.ephemeral_x25519);
        assert(remote_public@ =~= x25519_public(eph)@);
        assert(b64_encode(kem.0@) == env.pq_ciphertext);
        assert(b64_encode(chacha_seal(kek_s, envelope_nonce(), mk)) == env.encrypted_master_key);
        assert(kek@ == kek_s);
        assert(chacha_seal(kek@, zero_nonce@, mk) == wrapped@);
        assert(master@ == mk);
        assert(master_key@ =~= mk);
        assert(b64_encode(chacha_seal(mk, nonce, inner)) == ct_t);
        assert(b64_encode(nonce) == nonce_t);
        assert(chacha_seal(master_key@, nonce_arr@, inner) == raw_ciphertext@);
    }
    match plain {
        Some(p) => TrackOutcome::Opened(p),
        None => TrackOutcome::Rejected(DecryptFailure::PayloadRejected),
    }
}

/// An encrypted message as mathematical values.
pub struct OutboundView {
    pub conv_id: u128,
    pub ciphertext: Seq<char>,
    pub nonce: Seq<char>,
    pub envelopes: Seq<EnvelopeView>,
}

impl View for OutboundMessagePayload {
    type V = OutboundView;

    open spec fn view(&self) -> OutboundView {
        OutboundView {
            conv_id: self.conv_id,
            ciphertext: self.ciphertext@,
            nonce: self.nonce@,
            envelopes: self.envelopes@.map_values(|e: Envelope| e@),
        }
    }
}

/// The randomness that one envelope consumes: an ephemeral X25519 secret and ML-KEM randomness.
#[derive(Clone, Copy)]
pub struct EnvelopeRandomness {
    pub ephemeral: [u8; 32],
    pub kem: [u8; 32],
}

/// The envelope for the reader with public keys `keys`.
pub open spec fn seal_for(keys: UserPublicKeys, master: Seq<u8>, rand: EnvelopeRandomness) -> EnvelopeView {
    seal_envelope_spec(keys.x25519@, keys.mlkem@, master, rand.ephemeral@, rand.kem@)
}

/// The message that encrypting `inner` gives: the payload under `master` and `nonce`, one envelope
/// per recipient in order, and last an envelope for the sender.
pub open spec fn seal_message_spec(
    inner: Seq<u8>,
    master: Seq<u8>,
    nonce: Seq<u8>,
    sender: UserPublicKeys,
    recipients: Seq<UserPublicKeys>,
    randomness: Seq<EnvelopeRandomness>,
    sender_randomness: EnvelopeRandomness,
    conv_id: u128,
) -> OutboundView {
    OutboundView {
        conv_id,
        ciphertext: b64_encode(chacha_seal(master, nonce, inner)),
        nonce: b64_encode(nonce),
        envelopes: Seq::new(recipients.len(), |i: int| seal_for(recipients[i], master, randomness[i])).push(
            seal_for(sender, master, sender_randomness),
        ),
    }
}

/// The sealing half of the message law: in a message sealed for a list of recipients, the
/// envelope at index `k` (the recipient `k`, or the sender at the end of the list) together with
/// the message text is exactly what sealing the message for that reader's public keys produces;
/// so the decryption procedure, tried by that reader, opens it to the sealed message (see the
/// contract of `decrypt_message_with_fallback`).
pub proof fn lemma_sealed_message_envelope(
    inner: Seq<u8>,
    master: Seq<u8>,
    nonce: Seq<u8>,
    sender: UserPublicKeys,
    recipients: Seq<UserPublicKeys>,
    randomness: Seq<EnvelopeRandomness>,
    sender_randomness: EnvelopeRandomness,
    conv_id: u128,
    k: int,
)
    requires
        master.len() == 32,
        nonce.len() == 12,
        aead_len_ok(inner.len()),
        randomness.len() == recipients.len(),
        0 <= k <= recipients.len(),
    ensures
        ({
            let out = seal_message_spec(inner, master, nonce, sender, recipients, randomness, sender_randomness, conv_id);
            let reader = if k < recipients.len() { recipients[k] } else { sender };
            let rand = if k < recipients.len() { randomness[k] } else { sender_randomness };
            &&& out.envelopes.len() == recipients.len() + 1
            &&& sealed_pair(out.ciphertext, out.nonce, out.envelopes[k], reader.x25519@, reader.mlkem@, inner, master, nonce,
                rand.ephemeral@, rand.kem@)
        }),
{
}

/// Every key in the list is one that ML-KEM-768 accepts.
pub open spec fn all_accepted(keys: Seq<UserPublicKeys>) -> bool {
    forall|i: int| 0 <= i < keys.len() ==> mlkem_accepts(#[trigger] keys[i].mlkem@)
}

/// Encrypts `inner` with the given master key, nonce and per-envelope randomness.
pub fn seal_message(
    inner: &[u8],
    master: &[u8; 32],
    nonce: &[u8; 12],
    sender: &UserPublicKeys,
    recipients: &Vec<UserPublicKeys>,
    randomness: &Vec<EnvelopeRandomness>,
    sender_randomness: &EnvelopeRandomness,
    conv_id: u128,
) -> (r: OutboundMessagePayload)
    requires
        aead_len_ok(inner@.len()),
        randomness@.len() == recipients@.len(),
        all_accepted(recipients@),
        mlkem_accepts(sender.mlkem@),
    ensures
        r@ == seal_message_spec(inner@, master@, nonce@, *sender, recipients@, randomness@, *sender_randomness, conv_id),
        b64_decode(r.ciphertext@) matches Some(c) && c.len() == inner@.len() + 16,
        b64_decode(r.nonce@) == Some(nonce@),
        r.envelopes@.len() == recipients@.len() + 1,
{
    let encrypted = aead_encrypt(master, nonce, inner).unwrap();
    let mut envelopes: Vec<Envelope> = Vec::new();
    let mut i: usize = 0;
    while i < recipients.len()
        invariant
            i <= recipients@.len(),
            randomness@.len() == recipients@.len(),
            all_accepted(recipients@),
            envelopes@.len() == i,
            forall|j: int| 0 <= j < i ==> (#[trigger] envelopes@[j])@ == seal_for(recipients@[j], master@, randomness@[j]),
        decreases recipients@.len() - i,
    {
        let keys = &recipients[i];
        let rand = &randomness[i];
        assert(mlkem_accepts(recipients@[i as int].mlkem@));
        let e = seal_envelope(&keys.x25519, &keys.mlkem, master, &rand.ephemeral, &rand.kem);
        envelopes.push(e);
        i += 1;
    }
    let e = seal_envelope(&sender.x25519, &sender.mlkem, master, &sender_randomness.ephemeral, &sender_randomness.kem);
    envelopes.push(e);
    let r = OutboundMessagePayload {
        conv_id,
        ciphertext: base64_encode(encrypted.as_slice()),
        nonce: base64_encode(nonce.as_slice()),
        envelopes,
    };
    assert(r@.envelopes =~= seal_message_spec(inner@, master@, nonce@, *sender, recipients@, randomness@, *sender_randomness, conv_id).envelopes);
    r
}

/// Fresh randomness for one envelope.
fn fresh_envelope_randomness() -> (r: EnvelopeRandomness) {
    let kem = random_bytes_32();
    let ephemeral = random_bytes_32();
    EnvelopeRandomness { ephemeral, kem }
}

/// Wraps `master_msg_key` for one reader with fresh randomness.
pub fn encrypt_person_payload(x25519: [u8; 32], mlkem: [u8; 1184], master_msg_key: &[u8; 32]) -> (e: Envelope)
    requires
        mlkem_accepts(mlkem@),
    ensures
        exists|rand: EnvelopeRandomness| e@ == seal_envelope_spec(x25519@, mlkem@, master_msg_key@, rand.ephemeral@, rand.kem@),
{
    let rand = fresh_envelope_randomness();
    seal_envelope(&x25519, &mlkem, master_msg_key, &rand.ephemeral, &rand.kem)
}

/// Wraps `master_msg_key` for one reader with fresh randomness, or gives `None` when ML-KEM-768
/// refuses the reader's key.
pub fn try_encrypt_person_payload(x25519: [u8; 32], mlkem: [u8; 1184], master_msg_key: &[u8; 32]) -> (r: Option<Envelope>)
    ensures
        r is None <==> !mlkem_accepts(mlkem@),
        r matches Some(e) ==> exists|rand: EnvelopeRandomness| e@ == seal_envelope_spec(
            x25519@,
            mlkem@,
            master_msg_key@,
            rand.ephemeral@,
            rand.kem@,
        ),
{
    let probe = [0u8; 32];
    if mlkem_encapsulate_with(&mlkem, &probe).is_none() {
        return None;
    }
    Some(encrypt_person_payload(x25519, mlkem, master_msg_key))
}

/// Encrypts the serialized message `inner_data` for every recipient and for the sender, with a
/// fresh master key, nonce and envelope randomness. The result is `seal_message_spec` of some such
/// randomness.
pub fn prepare_full_payload(
    inner_data: &[u8],
    sender_x25519: [u8; 32],
    sender_mlkem: [u8; 1184],
    recipients: Vec<UserPublicKeys>,
    recipient_id: u128,
) -> (r: OutboundMessagePayload)
    requires
        aead_len_ok(inner_data@.len()),
        all_accepted(recipients@),
        mlkem_accepts(sender_mlkem@),
    ensures
        exists|master: Seq<u8>, nonce: Seq<u8>, rand: Seq<EnvelopeRandomness>, sender_rand: EnvelopeRandomness|
            master.len() == 32 && nonce.len() == 12 && rand.len() == recipients@.len() && r@ == seal_message_spec(
                inner_data@,
                master,
                nonce,
                UserPublicKeys { x25519: sender_x25519, mlkem: sender_mlkem },
                recipients@,
                rand,
                sender_rand,
                recipient_id,
            ),
        b64_decode(r.ciphertext@) matches Some(c) && c.len() == inner_data@.len() + 16,
        b64_decode(r.nonce@) matches Some(n) && n.len() == 12,
        r.envelopes@.len() == recipients@.len() + 1,
{
    let master = random_bytes_32();
    let nonce = random_bytes_12();
    let mut randomness: Vec<EnvelopeRandomness> = Vec::new();
    let mut i: usize = 0;
    while i < recipients.len()
        invariant
            i <= recipients@.len(),
            randomness@.len() == i,
        decreases recipients@.len() - i,
    {
        randomness.push(fresh_envelope_randomness());
        i += 1;
    }
    let sender_randomness = fresh_envelope_randomness();
    let sender = UserPublicKeys { x25519: sender_x25519, mlkem: sender_mlkem };
    seal_message(inner_data, &master, &nonce, &sender, &recipients, &randomness, &sender_randomness, recipient_id)
}

/// Accepts the recipients' keys only if ML-KEM-768 accepts each of them as an encapsulation key.
pub fn keys_accepted(keys: &Vec<UserPublicKeys>) -> (r: bool)
    ensures
        r == all_accepted(keys@),
{
    let probe = [0u8; 32];
    let mut i: usize = 0;
    while i < keys.len()
        invariant
            i <= keys@.len(),
            forall|j: int| 0 <= j < i ==> mlkem_accepts(#[trigger] keys@[j].mlkem@),
        decreases keys@.len() - i,
    {
        if mlkem_encapsulate_with(&keys[i].mlkem, &probe).is_none() {
            return false;
        }
        i += 1;
    }
    true
}

/// Like `prepare_full_payload`, but returns `None`, instead of requiring otherwise, when the message
/// is too long for the cipher or ML-KEM-768 refuses the sender's or a recipient's key.
pub fn try_prepare_full_payload(
    inner_data: &[u8],
    sender_x25519: [u8; 32],
    sender_mlkem: [u8; 1184],
    recipients: Vec<UserPublicKeys>,
    recipient_id: u128,
) -> (r: Option<OutboundMessagePayload>)
    ensures
        r is None <==> !(aead_len_ok(inner_data@.len()) && all_accepted(recipients@) && mlkem_accepts(sender_mlkem@)),
        r matches Some(p) ==> exists|master: Seq<u8>, nonce: Seq<u8>, rand: Seq<EnvelopeRandomness>, sender_rand: EnvelopeRandomness|
            master.len() == 32 && nonce.len() == 12 && rand.len() == recipients@.len() && p@ == seal_message_spec(
                inner_data@,
                master,
                nonce,
                UserPublicKeys { x25519: sender_x25519, mlkem: sender_mlkem },
                recipients@,
                rand,
                sender_rand,
                recipient_id,
            ),
        r matches Some(p) ==> (b64_decode(p.ciphertext@) matches Some(c) && c.len() == inner_data@.len() + 16),
        r matches Some(p) ==> (b64_decode(p.nonce@) matches Some(n) && n.len() == 12),
        r matches Some(p) ==> p.envelopes@.len() == recipients@.len() + 1,
{
    if inner_data.len() / 64 >= 0xFFFF_FFFF {
        return None;
    }
    let probe = [0u8; 32];
    if mlkem_encapsulate_with(&sender_mlkem, &probe).is_none() {
        return None;
    }
    if !keys_accepted(&recipients) {
        return None;
    }
    Some(prepare_full_payload(inner_data, sender_x25519, sender_mlkem, recipients, recipient_id))
}

/// What trying a message's envelopes in order gives.
pub enum MessageOutcome {
    /// The envelope at this index was the first to open; the message decrypted to these bytes.
    Opened(usize, Vec<u8>),
    /// No envelope opened.
    NoneOpened,
    /// The envelope at this index was the first that did not simply fail, and its input is
    /// malformed in a way the decryption procedure cannot handle.
    Aborted(usize),
}

/// What trying a message's envelopes in order gives, as mathematical values.
pub enum MessageView {
    Opened(int, Seq<u8>),
    NoneOpened,
    Aborted(int),
}

impl View for MessageOutcome {
    type V = MessageView;

    open spec fn view(&self) -> MessageView {
        match self {
            MessageOutcome::Opened(i, p) => MessageView::Opened(*i as int, p@),
            MessageOutcome::NoneOpened => MessageView::NoneOpened,
            MessageOutcome::Aborted(i) => MessageView::Aborted(*i as int),
        }
    }
}

/// Trying the envelopes `envs` from index `i` on: the first one that does not fail decides.
pub open spec fn fallback_spec(
    ciphertext_b64: Seq<char>,
    nonce_b64: Seq<char>,
    envs: Seq<Envelope>,
    x_secret: Seq<u8>,
    kem_seed: Seq<u8>,
    i: int,
) -> MessageView
    decreases envs.len() - i,
{
    if i < 0 || i >= envs.len() {
        MessageView::NoneOpened
    } else {
        match track_spec(ciphertext_b64, nonce_b64, envs[i]@, x_secret, kem_seed) {
            TrackView::Opened(p) => MessageView::Opened(i, p),
            TrackView::Aborted => MessageView::Aborted(i),
            TrackView::Rejected(_) => fallback_spec(ciphertext_b64, nonce_b64, envs, x_secret, kem_seed, i + 1),
        }
    }
}

/// The message law: when the envelope at index `k` (at or after `start`) was sealed for the
/// reader's public keys and every envelope between `start` and `k` simply fails for the reader,
/// trying the envelopes from `start` opens envelope `k` and yields the sealed message.
pub open spec fn message_law(
    payload: InboundMessagePayload,
    x_secret: Seq<u8>,
    kem_seed: Seq<u8>,
    start: int,
    outcome: MessageView,
) -> bool {
    forall|k: int, inner: Seq<u8>, master: Seq<u8>, nonce: Seq<u8>, eph: Seq<u8>, m: Seq<u8>|
        start <= k < payload.envelopes@.len() && #[trigger] sealed_pair(
            payload.ciphertext@,
            payload.nonce@,
            payload.envelopes@[k]@,
            x25519_public(x_secret)@,
            mlkem_public_of_seed(kem_seed)@,
            inner,
            master,
            nonce,
            eph,
            m,
        ) && kem_round_trips(kem_seed, m) && (forall|j: int|
            start <= j < k ==> #[trigger] track_spec(
                payload.ciphertext@,
                payload.nonce@,
                payload.envelopes@[j]@,
                x_secret,
                kem_seed,
            ) is Rejected) ==> outcome == MessageView::Opened(k, inner)
}

/// Tries the envelopes of a message in order, from index `start`, until one opens.
pub fn decrypt_message_from(
    payload: &InboundMessagePayload,
    my_x25519_private: &[u8; 32],
    my_mlkem_private: &[u8; 64],
    start: usize,
) -> (r: MessageOutcome)
    ensures
        r@ == fallback_spec(payload.ciphertext@, payload.nonce@, payload.envelopes@, my_x25519_private@, my_mlkem_private@, start as int),
        message_law(*payload, my_x25519_private@, my_mlkem_private@, start as int, r@),
{
    let ghost ct = payload.ciphertext@;
    let ghost nt = payload.nonce@;
    let ghost envs = payload.envelopes@;
    let ghost xs = my_x25519_private@;
    let ghost seed = my_mlkem_private@;
    let mut i: usize = start;
    while i < payload.envelopes.len()
        invariant
            start <= i,
            envs == payload.envelopes@,
            ct == payload.ciphertext@,
            nt == payload.nonce@,
            xs == my_x25519_private@,
            seed == my_mlkem_private@,
            fallback_spec(ct, nt, envs, xs, seed, start as int) == fallback_spec(ct, nt, envs, xs, seed, i as int),
            forall|j: int| start <= j < i ==> #[trigger] track_spec(ct, nt, envs[j]@, xs, seed) is Rejected,
            forall|j: int| start <= j < i ==> #[trigger] track_law(ct, nt, envs[j]@, xs, seed),
        decreases envs.len() - i,
    {
        let t = execute_envelope_decryption_track(
            payload.ciphertext.as_str(),
            payload.nonce.as_str(),
            &payload.envelopes[i],
            my_x25519_private,
            my_mlkem_private,
        );
        match t {
            TrackOutcome::Opened(p) => {
                let r = MessageOutcome::Opened(i, p);
                assert(track_law(ct, nt, envs[i as int]@, xs, seed));
                assert forall|k: int, inner: Seq<u8>, master: Seq<u8>, nonce: Seq<u8>, eph: Seq<u8>, m: Seq<u8>|
                    start <= k < envs.len() && #[trigger] sealed_pair(ct, nt, envs[k]@, x25519_public(xs)@,
                        mlkem_public_of_seed(seed)@, inner, master, nonce, eph, m) && kem_round_trips(seed, m)
                        && (forall|j: int| start <= j < k ==> #[trigger] track_spec(ct, nt, envs[j]@, xs, seed) is Rejected)
                    implies r@ == MessageView::Opened(k, inner) by {
                    if k < i {
                        assert(track_law(ct, nt, envs[k]@, xs, seed));
                    } else if k > i {
                        assert(track_spec(ct, nt, envs[i as int]@, xs, seed) is Rejected);
                    }
                }
                return r;
            },
            TrackOutcome::Aborted => {
                let r = MessageOutcome::Aborted(i);
                assert(track_law(ct, nt, envs[i as int]@, xs, seed));
                assert forall|k: int, inner: Seq<u8>, master: Seq<u8>, nonce: Seq<u8>, eph: Seq<u8>, m: Seq<u8>|
                    start <= k < envs.len() && #[trigger] sealed_pair(ct, nt, envs[k]@, x25519_public(xs)@,
                        mlkem_public_of_seed(seed)@, inner, master, nonce, eph, m) && kem_round_trips(seed, m)
                        && (forall|j: int| start <= j < k ==> #[trigger] track_spec(ct, nt, envs[j]@, xs, seed) is Rejected)
                    implies r@ == MessageView::Opened(k, inner) by {
                    if k < i {
                        assert(track_law(ct, nt, envs[k]@, xs, seed));
                    } else if k > i {
                        assert(track_spec(ct, nt, envs[i as int]@, xs, seed) is Rejected);
                    }
                }
                return r;
            },
            TrackOutcome::Rejected(_) => {},
        }
        i += 1;
    }
    let r = MessageOutcome::NoneOpened;
    assert forall|k: int, inner: Seq<u8>, master: Seq<u8>, nonce: Seq<u8>, eph: Seq<u8>, m: Seq<u8>|
        start <= k < envs.len() && #[trigger] sealed_pair(ct, nt, envs[k]@, x25519_public(xs)@,
            mlkem_public_of_seed(seed)@, inner, master, nonce, eph, m) && kem_round_trips(seed, m)
            && (forall|j: int| start <= j < k ==> #[trigger] track_spec(ct, nt, envs[j]@, xs, seed) is Rejected)
        implies r@ == MessageView::Opened(k, inner) by {
        assert(track_law(ct, nt, envs[k]@, xs, seed));
    }
    r
}

/// Why no envelope of a message yielded it.
#[derive(Clone, Copy, PartialEq, Eq, Structural, Debug)]
pub enum DecryptError {
    /// No envelope opened: the reader's keys do not match, or the message was tampered with.
    NoEnvelopeOpened,
}

/// Decrypts a message by trying its envelopes in order until one opens.
pub fn decrypt_message_with_fallback(
    payload: &InboundMessagePayload,
    my_x25519_private: &[u8; 32],
    my_mlkem_private: &[u8; 64],
) -> (r: Result<Vec<u8>, DecryptError>)
    requires
        !(fallback_spec(payload.ciphertext@, payload.nonce@, payload.envelopes@, my_x25519_private@, my_mlkem_private@, 0) is Aborted),
    ensures
        match fallback_spec(payload.ciphertext@, payload.nonce@, payload.envelopes@, my_x25519_private@, my_mlkem_private@, 0) {
            MessageView::Opened(_, p) => r matches Ok(v) && v@ == p,
            _ => r == Err::<Vec<u8>, DecryptError>(DecryptError::NoEnvelopeOpened),
        },
        forall|k: int, inner: Seq<u8>, master: Seq<u8>, nonce: Seq<u8>, eph: Seq<u8>, m: Seq<u8>|
            0 <= k < payload.envelopes@.len() && #[trigger] sealed_pair(
                payload.ciphertext@,
                payload.nonce@,
                payload.envelopes@[k]@,
                x25519_public(my_x25519_private@)@,
                mlkem_public_of_seed(my_mlkem_private@)@,
                inner,
                master,
                nonce,
                eph,
                m,
            ) && kem_round_trips(my_mlkem_private@, m) && (forall|j: int|
                0 <= j < k ==> #[trigger] track_spec(
                    payload.ciphertext@,
                    payload.nonce@,
                    payload.envelopes@[j]@,
                    my_x25519_private@,
                    my_mlkem_private@,
                ) is Rejected) ==> (r matches Ok(v) && v@ == inner),
{
    let outcome = decrypt_message_from(payload, my_x25519_private, my_mlkem_private, 0);
    match outcome {
        MessageOutcome::Opened(_, p) => Ok(p),
        _ => Err(DecryptError::NoEnvelopeOpened),
    }
}

/// Decrypts a message like `decrypt_message_with_fallback`, but returns `None` where that
/// function's input condition fails (an envelope is malformed in a way the procedure cannot handle).
pub fn try_decrypt_message(
    payload: &InboundMessagePayload,
    my_x25519_private: &[u8; 32],
    my_mlkem_private: &[u8; 64],
) -> (r: Option<Result<Vec<u8>, DecryptError>>)
    ensures
        match fallback_spec(payload.ciphertext@, payload.nonce@, payload.envelopes@, my_x25519_private@, my_mlkem_private@, 0) {
            MessageView::Opened(_, p) => r matches Some(Ok(v)) && v@ == p,
            MessageView::NoneOpened => r == Some(Err::<Vec<u8>, DecryptError>(DecryptError::NoEnvelopeOpened)),
            MessageView::Aborted(_) => r is None,
        },
{
    let outcome = decrypt_message_from(payload, my_x25519_private, my_mlkem_private, 0);
    match outcome {
        MessageOutcome::Opened(_, p) => Some(Ok(p)),
        MessageOutcome::NoneOpened => Some(Err(DecryptError::NoEnvelopeOpened)),
        MessageOutcome::Aborted(_) => None,
    }
}

/// Tries every envelope of a message, in order, and gives what each one gives the reader; a caller
/// that must also accept the opened plaintext (parse it) can then fall through to the next envelope
/// with `first_usable`.
pub fn envelope_openings(
    payload: &InboundMessagePayload,
    my_x25519_private: &[u8; 32],
    my_mlkem_private: &[u8; 64],
) -> (r: Vec<TrackOutcome>)
    ensures
        r@.len() == payload.envelopes@.len(),
        forall|i: int| 0 <= i < r@.len() ==> (#[trigger] r@[i])@ == track_spec(
            payload.ciphertext@,
            payload.nonce@,
            payload.envelopes@[i]@,
            my_x25519_private@,
            my_mlkem_private@,
        ),
        forall|i: int| 0 <= i < r@.len() ==> #[trigger] track_law(
            payload.ciphertext@,
            payload.nonce@,
            payload.envelopes@[i]@,
            my_x25519_private@,
            my_mlkem_private@,
        ),
{
    let mut out: Vec<TrackOutcome> = Vec::new();
    let mut i: usize = 0;
    while i < payload.envelopes.len()
        invariant
            i <= payload.envelopes@.len(),
            out@.len() == i,
            forall|j: int| 0 <= j < i ==> (#[trigger] out@[j])@ == track_spec(
                payload.ciphertext@,
                payload.nonce@,
                payload.envelopes@[j]@,
                my_x25519_private@,
                my_mlkem_private@,
            ),
            forall|j: int| 0 <= j < i ==> #[trigger] track_law(
                payload.ciphertext@,
                payload.nonce@,
                payload.envelopes@[j]@,
                my_x25519_private@,
                my_mlkem_private@,
            ),
        decreases payload.envelopes@.len() - i,
    {
        let t = execute_envelope_decryption_track(
            payload.ciphertext.as_str(),
            payload.nonce.as_str(),
            &payload.envelopes[i],
            my_x25519_private,
            my_mlkem_private,
        );
        out.push(t);
        i += 1;
    }
    out
}

/// Which envelope's opening a reader takes.
#[derive(Clone, Copy, PartialEq, Eq, Structural, Debug)]
pub enum FallbackChoice {
    /// This envelope opened and its plaintext was accepted.
    Chosen(usize),
    /// No envelope gave an accepted plaintext.
    NoneUsable,
    /// This envelope, reached before any accepted one, is malformed in a way the decryption
    /// procedure cannot handle.
    Aborted(usize),
}

/// Going through the openings from index `i`: the first envelope that opened to an accepted
/// plaintext is taken; one that cannot be handled stops the search; the others are passed over.
pub open spec fn choice_spec(outcomes: Seq<TrackView>, usable: Seq<bool>, i: int) -> FallbackChoice
    decreases outcomes.len() - i,
{
    if i < 0 || i >= outcomes.len() {
        FallbackChoice::NoneUsable
    } else {
        match outcomes[i] {
            TrackView::Opened(_) => if usable[i] {
                FallbackChoice::Chosen(i as usize)
            } else {
                choice_spec(outcomes, usable, i + 1)
            },
            TrackView::Aborted => FallbackChoice::Aborted(i as usize),
            TrackView::Rejected(_) => choice_spec(outcomes, usable, i + 1),
        }
    }
}

/// Picks the envelope whose opening a reader takes, given for each envelope whether its opened
/// plaintext was accepted (`usable`; its value for an envelope that did not open does not matter).
pub fn first_usable(outcomes: &Vec<TrackOutcome>, usable: &Vec<bool>) -> (r: FallbackChoice)
    requires
        usable@.len() == outcomes@.len(),
    ensures
        r == choice_spec(outcomes@.map_values(|o: TrackOutcome| o@), usable@, 0),
{
    let ghost views = outcomes@.map_values(|o: TrackOutcome| o@);
    let mut i: usize = 0;
    while i < outcomes.len()
        invariant
            i <= outcomes@.len(),
            usable@.len() == outcomes@.len(),
            views == outcomes@.map_values(|o: TrackOutcome| o@),
            choice_spec(views, usable@, 0) == choice_spec(views, usable@, i as int),
        decreases outcomes@.len() - i,
    {
        assert(views[i as int] == outcomes@[i as int]@);
        match &outcomes[i] {
            TrackOutcome::Opened(_) => {
                if usable[i] {
                    return FallbackChoice::Chosen(i);
                }
            },
            TrackOutcome::Aborted => {
                return FallbackChoice::Aborted(i);
            },
            TrackOutcome::Rejected(_) => {},
        }
        i += 1;
    }
    FallbackChoice::NoneUsable
}

/// What each envelope of a message gives the reader, in order.
pub open spec fn message_views(payload: InboundMessagePayload, x_secret: Seq<u8>, kem_seed: Seq<u8>) -> Seq<TrackView> {
    Seq::new(
        payload.envelopes@.len(),
        |i: int| track_spec(payload.ciphertext@, payload.nonce@, payload.envelopes@[i]@, x_secret, kem_seed),
    )
}

/// `accept` can answer `b` for the plaintext `p`.
pub open spec fn accept_answers<F: Fn(&Vec<u8>) -> bool>(accept: F, p: Seq<u8>, b: bool) -> bool {
    exists|v: &Vec<u8>| v@ == p && #[trigger] accept.ensures((v,), b)
}

/// `usable` holds, for each envelope that opens, an answer `accept` can give for its plaintext.
pub open spec fn answers_for<F: Fn(&Vec<u8>) -> bool>(accept: F, views: Seq<TrackView>, usable: Seq<bool>) -> bool {
    &&& usable.len() == views.len()
    &&& forall|i: int| 0 <= i < usable.len() ==> (#[trigger] views[i] matches TrackView::Opened(p) ==> accept_answers(accept, p, usable[i]))
}

/// Decrypts a message by trying its envelopes in order, taking the first whose opened plaintext
/// `accept` takes (the reader checks that it reads as the inner payload): an envelope that opens to
/// a plaintext that `accept` refuses is passed over like one that does not open. Gives which
/// envelope was taken (see `first_usable`) and, when one was, its plaintext.
pub fn decrypt_message_accepting<F: Fn(&Vec<u8>) -> bool>(
    payload: &InboundMessagePayload,
    my_x25519_private: &[u8; 32],
    my_mlkem_private: &[u8; 64],
    accept: &F,
) -> (r: (FallbackChoice, Option<Vec<u8>>))
    requires
        forall|v: &Vec<u8>| #[trigger] accept.requires((v,)),
    ensures
        exists|usable: Seq<bool>|
            answers_for(*accept, message_views(*payload, my_x25519_private@, my_mlkem_private@), usable) && r.0
                == #[trigger] choice_spec(message_views(*payload, my_x25519_private@, my_mlkem_private@), usable, 0),
        r.0 matches FallbackChoice::Chosen(i) ==> r.1 matches Some(v) && message_views(
            *payload,
            my_x25519_private@,
            my_mlkem_private@,
        )[i as int] == TrackView::Opened(v@),
        !(r.0 is Chosen) ==> r.1 is None,
{
    let outcomes = envelope_openings(payload, my_x25519_private, my_mlkem_private);
    let ghost views = message_views(*payload, my_x25519_private@, my_mlkem_private@);
    assert(outcomes@.map_values(|o: TrackOutcome| o@) =~= views);
    let mut usable: Vec<bool> = Vec::new();
    let mut i: usize = 0;
    while i < outcomes.len()
        invariant
            i <= outcomes@.len(),
            views.len() == outcomes@.len(),
            forall|j: int| 0 <= j < outcomes@.len() ==> views[j] == (#[trigger] outcomes@[j])@,
            forall|v: &Vec<u8>| #[trigger] accept.requires((v,)),
            usable@.len() == i,
            forall|j: int| 0 <= j < i ==> (#[trigger] views[j] matches TrackView::Opened(p) ==> accept_answers(accept, p, usable@[j])),
        decreases outcomes@.len() - i,
    {
        assert(views[i as int] == outcomes@[i as int]@);
        let b = match &outcomes[i] {
            TrackOutcome::Opened(p) => {
                let b = accept(p);
                assert(accept_answers(accept, p@, b));
                b
            },
            _ => false,
        };
        usable.push(b);
        i += 1;
    }
    let choice = first_usable(&outcomes, &usable);
    assert(answers_for(*accept, views, usable@));
    assert(choice == choice_spec(views, usable@, 0));
    let bytes = match choice {
        FallbackChoice::Chosen(k) => {
            proof {
                lemma_choice_opened(views, usable@, 0);
            }
            assert(views[k as int] == outcomes@[k as int]@);
            match &outcomes[k] {
                TrackOutcome::Opened(p) => Some(p.clone()),
                _ => None,
            }
        },
        _ => None,
    };
    (choice, bytes)
}

/// The envelope that `choice_spec` takes opened.
proof fn lemma_choice_opened(outcomes: Seq<TrackView>, usable: Seq<bool>, i: int)
    requires
        0 <= i,
        outcomes.len() <= usize::MAX,
    ensures
        choice_spec(outcomes, usable, i) matches FallbackChoice::Chosen(k) ==> i <= k < outcomes.len() && outcomes[k as int] is Opened,
    decreases outcomes.len() - i,
{
    if i < outcomes.len() {
        lemma_choice_opened(outcomes, usable, i + 1);
    }
}

} // verus!
