use base64::Engine as _;
use swa_moola::chat_client::{open_inbox, open_inbox_accepting};
use swa_moola::hybrid::{
    decrypt_message_accepting, decrypt_message_with_fallback, envelope_openings, execute_envelope_decryption_track, first_usable, FallbackChoice, keys_accepted, seal_envelope, seal_message,
    try_decrypt_message, try_encrypt_person_payload, try_prepare_full_payload, DecryptError, DecryptFailure, Envelope, EnvelopeRandomness,
    InboundMessagePayload, OutboundMessagePayload, TrackOutcome, UserPublicKeys,
};
use swa_moola::identity::{derive_hybrid_identity, load_private_keys_locally, HybridIdentity, RetrievedPrivateKeys};

struct Person {
    public: UserPublicKeys,
    secret: RetrievedPrivateKeys,
}

fn person(seed: u8) -> Person {
    let id: HybridIdentity = derive_hybrid_identity(&[seed; 32], &[seed.wrapping_add(100); 32]);
    let public = UserPublicKeys::new(Some(&id.x25519_public_b64), Some(&id.mlkem_public_b64));
    let secret = load_private_keys_locally(&id.private_keys).expect("saved keys load back");
    Person { public, secret }
}

fn copy_keys(k: &UserPublicKeys) -> UserPublicKeys {
    UserPublicKeys { x25519: k.x25519, mlkem: k.mlkem }
}

fn inbound(p: OutboundMessagePayload, msg_id: u128) -> InboundMessagePayload {
    InboundMessagePayload { msg_id, conv_id: p.conv_id, ciphertext: p.ciphertext, nonce: p.nonce, envelopes: p.envelopes }
}

fn copy_inbound(p: &InboundMessagePayload) -> InboundMessagePayload {
    InboundMessagePayload {
        msg_id: p.msg_id,
        conv_id: p.conv_id,
        ciphertext: p.ciphertext.clone(),
        nonce: p.nonce.clone(),
        envelopes: p
            .envelopes
            .iter()
            .map(|e| Envelope {
                ephemeral_x25519: e.ephemeral_x25519.clone(),
                pq_ciphertext: e.pq_ciphertext.clone(),
                encrypted_master_key: e.encrypted_master_key.clone(),
            })
            .collect(),
    }
}

#[test]
fn recipient_reads_message_sent_to_them() {
    let alice = person(1);
    let bob = person(2);
    let inner = b"{\"text_message\":\"hello bob\"}".to_vec();
    let out = try_prepare_full_payload(&inner, alice.public.x25519, alice.public.mlkem, vec![copy_keys(&bob.public)], 7)
        .expect("keys are accepted");
    assert_eq!(out.conv_id, 7);
    assert_eq!(out.envelopes.len(), 2);
    let msg = inbound(out, 1);
    let read = decrypt_message_with_fallback(&msg, &bob.secret.x25519_private, &bob.secret.mlkem_private);
    assert_eq!(read, Ok(inner));
}

#[test]
fn sender_reads_own_message_through_last_envelope() {
    let alice = person(3);
    let bob = person(4);
    let carol = person(5);
    let inner = b"group news".to_vec();
    let out = try_prepare_full_payload(
        &inner,
        alice.public.x25519,
        alice.public.mlkem,
        vec![copy_keys(&bob.public), copy_keys(&carol.public)],
        9,
    )
    .unwrap();
    assert_eq!(out.envelopes.len(), 3);
    let msg = inbound(out, 2);
    for reader in [&alice, &bob, &carol] {
        let read = decrypt_message_with_fallback(&msg, &reader.secret.x25519_private, &reader.secret.mlkem_private);
        assert_eq!(read, Ok(inner.clone()));
    }
}

#[test]
fn stranger_cannot_read_message() {
    let alice = person(6);
    let bob = person(7);
    let eve = person(8);
    let out = try_prepare_full_payload(b"secret", alice.public.x25519, alice.public.mlkem, vec![copy_keys(&bob.public)], 1)
        .unwrap();
    let msg = inbound(out, 3);
    let read = decrypt_message_with_fallback(&msg, &eve.secret.x25519_private, &eve.secret.mlkem_private);
    assert_eq!(read, Err(DecryptError::NoEnvelopeOpened));
    let tried = try_decrypt_message(&msg, &eve.secret.x25519_private, &eve.secret.mlkem_private);
    assert_eq!(tried, Some(Err(DecryptError::NoEnvelopeOpened)));
}

#[test]
fn tampered_ciphertext_is_rejected() {
    let alice = person(9);
    let bob = person(10);
    let out = try_prepare_full_payload(b"untouched", alice.public.x25519, alice.public.mlkem, vec![copy_keys(&bob.public)], 1)
        .unwrap();
    let mut msg = inbound(out, 4);
    let mut raw = base64_decode_for_test(&msg.ciphertext);
    raw[0] ^= 1;
    msg.ciphertext = base64_encode_for_test(&raw);
    let read = decrypt_message_with_fallback(&msg, &bob.secret.x25519_private, &bob.secret.mlkem_private);
    assert_eq!(read, Err(DecryptError::NoEnvelopeOpened));
}

#[test]
fn seal_message_with_fixed_randomness_opens_for_recipient() {
    let alice = person(11);
    let bob = person(12);
    let master = [42u8; 32];
    let nonce = [7u8; 12];
    let rand = EnvelopeRandomness { ephemeral: [3u8; 32], kem: [4u8; 32] };
    let sender_rand = EnvelopeRandomness { ephemeral: [5u8; 32], kem: [6u8; 32] };
    let out = seal_message(b"fixed", &master, &nonce, &alice.public, &vec![copy_keys(&bob.public)], &vec![rand], &sender_rand, 5);
    let again = seal_message(b"fixed", &master, &nonce, &alice.public, &vec![copy_keys(&bob.public)], &vec![rand], &sender_rand, 5);
    assert_eq!(out.ciphertext, again.ciphertext);
    assert_eq!(out.envelopes[0].encrypted_master_key, again.envelopes[0].encrypted_master_key);
    let msg = inbound(out, 5);
    let read = decrypt_message_with_fallback(&msg, &bob.secret.x25519_private, &bob.secret.mlkem_private);
    assert_eq!(read, Ok(b"fixed".to_vec()));
}

#[test]
fn single_envelope_track_opens_and_rejects() {
    let bob = person(13);
    let eve = person(14);
    let master = [9u8; 32];
    let env = seal_envelope(&bob.public.x25519, &bob.public.mlkem, &master, &[1u8; 32], &[2u8; 32]);
    let out = seal_message(b"payload", &master, &[0u8; 12], &bob.public, &vec![], &vec![], &EnvelopeRandomness { ephemeral: [1u8; 32], kem: [2u8; 32] }, 0);
    assert_eq!(out.envelopes[0].encrypted_master_key, env.encrypted_master_key);
    let opened = execute_envelope_decryption_track(&out.ciphertext, &out.nonce, &env, &bob.secret.x25519_private, &bob.secret.mlkem_private);
    assert!(matches!(opened, TrackOutcome::Opened(ref p) if p == b"payload"));
    let refused = execute_envelope_decryption_track(&out.ciphertext, &out.nonce, &env, &eve.secret.x25519_private, &eve.secret.mlkem_private);
    assert!(matches!(refused, TrackOutcome::Rejected(DecryptFailure::EnvelopeRejected)));
}

#[test]
fn malformed_envelope_is_rejected() {
    let bob = person(15);
    let bad = Envelope {
        ephemeral_x25519: "not base64!".to_string(),
        pq_ciphertext: String::new(),
        encrypted_master_key: String::new(),
    };
    let r = execute_envelope_decryption_track("", "", &bad, &bob.secret.x25519_private, &bob.secret.mlkem_private);
    assert!(matches!(r, TrackOutcome::Rejected(DecryptFailure::MalformedEnvelope)));
}

#[test]
fn short_ephemeral_key_aborts() {
    let bob = person(16);
    let bad = Envelope {
        ephemeral_x25519: base64_encode_for_test(&[1u8; 8]),
        pq_ciphertext: base64_encode_for_test(&[0u8; 1088]),
        encrypted_master_key: base64_encode_for_test(&[0u8; 48]),
    };
    let r = execute_envelope_decryption_track("", "", &bad, &bob.secret.x25519_private, &bob.secret.mlkem_private);
    assert!(matches!(r, TrackOutcome::Aborted));
    let msg = InboundMessagePayload { msg_id: 1, conv_id: 1, ciphertext: String::new(), nonce: String::new(), envelopes: vec![bad] };
    assert_eq!(try_decrypt_message(&msg, &bob.secret.x25519_private, &bob.secret.mlkem_private), None);
}

#[test]
fn zero_keys_are_refused_by_keys_accepted() {
    let alice = person(17);
    let zero = UserPublicKeys::new(None, None);
    assert_eq!(zero.x25519, [0u8; 32]);
    assert_eq!(zero.mlkem, [0u8; 1184]);
    assert!(keys_accepted(&vec![copy_keys(&alice.public)]));
    let all_ones = UserPublicKeys { x25519: [0u8; 32], mlkem: [0xFFu8; 1184] };
    let accepted = keys_accepted(&vec![copy_keys(&all_ones)]);
    let prepared = try_prepare_full_payload(b"x", alice.public.x25519, alice.public.mlkem, vec![all_ones], 1);
    assert_eq!(prepared.is_none(), !accepted);
}

#[test]
fn inbox_keeps_readable_messages_in_order() {
    let alice = person(18);
    let bob = person(19);
    let eve = person(20);
    let m1 = inbound(try_prepare_full_payload(b"first", alice.public.x25519, alice.public.mlkem, vec![copy_keys(&bob.public)], 1).unwrap(), 1);
    let m2 = inbound(try_prepare_full_payload(b"for eve", alice.public.x25519, alice.public.mlkem, vec![copy_keys(&eve.public)], 2).unwrap(), 2);
    let m3 = inbound(try_prepare_full_payload(b"third", alice.public.x25519, alice.public.mlkem, vec![copy_keys(&bob.public)], 1).unwrap(), 3);
    let all = vec![copy_inbound(&m1), m2, m3];
    let opened = open_inbox(&all, &bob.secret.x25519_private, &bob.secret.mlkem_private).unwrap();
    assert_eq!(opened, vec![b"first".to_vec(), b"third".to_vec()]);
    let empty: Vec<InboundMessagePayload> = Vec::new();
    assert_eq!(open_inbox(&empty, &bob.secret.x25519_private, &bob.secret.mlkem_private), Some(vec![]));
}

fn base64_encode_for_test(b: &[u8]) -> String {
    base64::engine::general_purpose::STANDARD.encode(b)
}

fn base64_decode_for_test(t: &str) -> Vec<u8> {
    base64::engine::general_purpose::STANDARD.decode(t).unwrap()
}

#[test]
fn envelope_for_one_reader_unwraps_the_master_key() {
    let bob = person(21);
    let eve = person(22);
    let master = [77u8; 32];
    let env = try_encrypt_person_payload(bob.public.x25519, bob.public.mlkem, &master).expect("key accepted");
    let sealed = seal_message(b"hello", &master, &[1u8; 12], &eve.public, &vec![], &vec![], &EnvelopeRandomness { ephemeral: [1u8; 32], kem: [2u8; 32] }, 0);
    let opened = execute_envelope_decryption_track(&sealed.ciphertext, &sealed.nonce, &env, &bob.secret.x25519_private, &bob.secret.mlkem_private);
    assert!(matches!(opened, TrackOutcome::Opened(ref p) if p == b"hello"));
    let refused = try_encrypt_person_payload(bob.public.x25519, [0xFFu8; 1184], &master);
    let accepted = keys_accepted(&vec![UserPublicKeys { x25519: [0u8; 32], mlkem: [0xFFu8; 1184] }]);
    assert_eq!(refused.is_none(), !accepted);
}

#[test]
fn sealed_ciphertext_is_payload_plus_tag() {
    let alice = person(23);
    let bob = person(24);
    let inner = vec![7u8; 100];
    let out = try_prepare_full_payload(&inner, alice.public.x25519, alice.public.mlkem, vec![copy_keys(&bob.public)], 3).unwrap();
    assert_eq!(base64_decode_for_test(&out.ciphertext).len(), 116);
    assert_eq!(base64_decode_for_test(&out.nonce).len(), 12);
}

#[test]
fn every_envelope_opening_in_order() {
    let alice = person(25);
    let bob = person(26);
    let out = try_prepare_full_payload(b"{}", alice.public.x25519, alice.public.mlkem, vec![copy_keys(&bob.public)], 3).unwrap();
    let msg = inbound(out, 9);
    let for_alice = envelope_openings(&msg, &alice.secret.x25519_private, &alice.secret.mlkem_private);
    assert_eq!(for_alice.len(), 2);
    assert!(matches!(for_alice[0], TrackOutcome::Rejected(_)));
    assert!(matches!(for_alice[1], TrackOutcome::Opened(ref p) if p == b"{}"));
    assert_eq!(first_usable(&for_alice, &vec![false, true]), FallbackChoice::Chosen(1));
    assert_eq!(first_usable(&for_alice, &vec![false, false]), FallbackChoice::NoneUsable);
    let mixed = vec![TrackOutcome::Opened(vec![1]), TrackOutcome::Aborted, TrackOutcome::Opened(vec![2])];
    assert_eq!(first_usable(&mixed, &vec![false, false, true]), FallbackChoice::Aborted(1));
    assert_eq!(first_usable(&mixed, &vec![true, false, true]), FallbackChoice::Chosen(0));
}

fn reads_as_json(bytes: &Vec<u8>) -> bool {
    serde_json::from_slice::<serde_json::Value>(bytes).is_ok()
}

#[test]
fn accepted_plaintext_is_taken() {
    let alice = person(31);
    let bob = person(32);
    let inner = b"{\"text_message\":\"hi\"}".to_vec();
    let out = try_prepare_full_payload(&inner, alice.public.x25519, alice.public.mlkem, vec![copy_keys(&bob.public)], 3).unwrap();
    let msg = inbound(out, 1);
    let (choice, bytes) = decrypt_message_accepting(&msg, &bob.secret.x25519_private, &bob.secret.mlkem_private, &reads_as_json);
    assert_eq!(choice, FallbackChoice::Chosen(0));
    assert_eq!(bytes, Some(inner.clone()));
    let (choice, bytes) = decrypt_message_accepting(&msg, &alice.secret.x25519_private, &alice.secret.mlkem_private, &reads_as_json);
    assert_eq!(choice, FallbackChoice::Chosen(1));
    assert_eq!(bytes, Some(inner));
}

#[test]
fn refused_plaintext_falls_through_to_later_envelopes() {
    let alice = person(33);
    let bob = person(34);
    let inner = b"not json".to_vec();
    let out = try_prepare_full_payload(
        &inner,
        alice.public.x25519,
        alice.public.mlkem,
        vec![copy_keys(&bob.public), copy_keys(&bob.public)],
        3,
    )
    .unwrap();
    let msg = inbound(out, 1);
    let (choice, bytes) = decrypt_message_accepting(&msg, &bob.secret.x25519_private, &bob.secret.mlkem_private, &reads_as_json);
    assert_eq!(choice, FallbackChoice::NoneUsable);
    assert_eq!(bytes, None);
    let calls = std::cell::Cell::new(0);
    let second_time = |_: &Vec<u8>| {
        calls.set(calls.get() + 1);
        calls.get() > 1
    };
    let (choice, bytes) = decrypt_message_accepting(&msg, &bob.secret.x25519_private, &bob.secret.mlkem_private, &second_time);
    assert_eq!(choice, FallbackChoice::Chosen(1));
    assert_eq!(bytes, Some(inner));
}

#[test]
fn inbox_keeps_messages_whose_plaintext_is_accepted() {
    let alice = person(35);
    let bob = person(36);
    let eve = person(37);
    let good = b"{\"text_message\":\"one\"}".to_vec();
    let bad = b"garbled".to_vec();
    let to_bob = |inner: &Vec<u8>, id: u128| {
        inbound(try_prepare_full_payload(inner, alice.public.x25519, alice.public.mlkem, vec![copy_keys(&bob.public)], 3).unwrap(), id)
    };
    let to_eve = inbound(try_prepare_full_payload(&good, alice.public.x25519, alice.public.mlkem, vec![copy_keys(&eve.public)], 3).unwrap(), 9);
    let inbox = vec![to_bob(&good, 1), to_bob(&bad, 2), to_eve, to_bob(&good, 4)];
    let read = open_inbox_accepting(&inbox, &bob.secret.x25519_private, &bob.secret.mlkem_private, &reads_as_json);
    assert_eq!(read, Some(vec![good.clone(), good.clone()]));
    let everything = open_inbox_accepting(&inbox, &bob.secret.x25519_private, &bob.secret.mlkem_private, &|_: &Vec<u8>| true);
    assert_eq!(everything, Some(vec![good.clone(), bad, good]));
}
