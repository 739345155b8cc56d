use base64::Engine as _;
use sha2::Digest as _;
use swa_moola::accounts::{
    active_transaction_change, discoverable_key_from, generate_discoverable_key, generate_unused_discoverable_key,
    enumerated_discoverable_key, first_free_listed_key, key_is_taken, with_unused_discoverable_key, phone_number_hash, prepare_new_user, validate_search_key,
    trust_change_allowed, verify_user, AuthenticatedUser, LoginError, NewUserRecord, RegisterRequest, ScoreUpdate,
    SearchError, TransactionUpdateOption,
    User,
};
use swa_moola::auth::{
    auth_rejection_status, bearer_token, decision_from, generate_token, guard_decision, token_at, token_result,
    token_with_expiry,
    validate_token_and_get_id, GuardDecision, TokenError,
};
use swa_moola::primitives::JwtOutcome;

const ALPHABET: &str = "23456789ABCDEFGHJKLMNPQRSTUVWXYZabcdefghijkmnopqrstuvwxyz";

fn request(phone: &str, password: &str) -> RegisterRequest {
    RegisterRequest {
        name: "Amina".to_string(),
        phone_number: phone.to_string(),
        password: password.to_string(),
        x_public: "xpub".to_string(),
        pq_public: "pqpub".to_string(),
    }
}

fn stored(rec: &NewUserRecord) -> User {
    User {
        id: rec.id,
        name: rec.name.clone(),
        phone_number_hash: rec.phone_number_hash.clone(),
        password_hash: rec.password_hash.clone(),
        trust_score: Some(rec.trust_score),
        active_transactions: Some(rec.active_transactions),
        discoverable_key: rec.discoverable_key.clone(),
        x_public: rec.x_public.clone(),
        pq_public: rec.pq_public.clone(),
    }
}

fn user(uuid: u128, name: Option<&str>) -> AuthenticatedUser {
    AuthenticatedUser {
        uuid,
        name: name.map(|n| n.to_string()),
        trust_score: None,
        active_transactions: None,
        discoverable_key: None,
        x_public: None,
        pq_public: None,
    }
}

#[test]
fn phone_hash_is_hex_sha256_of_number_then_pepper() {
    let expected = hex::encode(sha2::Sha256::digest(b"+255712345678pepper"));
    assert_eq!(phone_number_hash("+255712345678", "pepper"), expected);
    assert_eq!(
        phone_number_hash("", ""),
        "e3b0c44298fc1c149afbf4c8996fb92427ae41e4649b934ca495991b7852b855"
    );
}

#[test]
fn discoverable_keys_use_the_unambiguous_alphabet() {
    for _ in 0..20 {
        let k = generate_discoverable_key();
        assert_eq!(k.len(), 12);
        assert!(k.chars().all(|c| ALPHABET.contains(c)));
        assert!(!k.contains('0') && !k.contains('O') && !k.contains('I') && !k.contains('l') && !k.contains('1'));
        assert_eq!(validate_search_key(&k), Ok(()));
    }
}

#[test]
fn search_key_must_be_twelve_bytes() {
    assert_eq!(validate_search_key("abcdefghijkm"), Ok(()));
    assert_eq!(validate_search_key("short"), Err(SearchError::InvalidKeyFormat));
    assert_eq!(validate_search_key("abcdefghijkmn"), Err(SearchError::InvalidKeyFormat));
    assert_eq!(validate_search_key("ééééééé"), Err(SearchError::InvalidKeyFormat));
    assert_eq!(validate_search_key("éééééé"), Ok(()));
}

#[test]
fn transaction_updates_move_the_counter_by_one() {
    assert_eq!(active_transaction_change(TransactionUpdateOption::Start), 1);
    assert_eq!(active_transaction_change(TransactionUpdateOption::End), -1);
}

#[test]
fn registered_user_can_log_in() {
    let rec = prepare_new_user(request("0700", "correct horse"), "pepper").unwrap();
    assert_eq!(rec.trust_score, 0);
    assert_eq!(rec.active_transactions, 0);
    assert_eq!(rec.name, "Amina");
    assert_eq!(rec.phone_number_hash, phone_number_hash("0700", "pepper"));
    assert_eq!((rec.id >> 76) & 0xF, 4);
    assert_eq!(validate_search_key(&rec.discoverable_key), Ok(()));
    assert!(rec.password_hash.starts_with("$argon2"));
    let logged = verify_user(Some(stored(&rec)), "correct horse").unwrap();
    assert_eq!(logged.uuid, rec.id);
    assert_eq!(logged.name.as_deref(), Some("Amina"));
    assert_eq!(logged.trust_score, Some(0));
    assert_eq!(logged.x_public.as_deref(), Some("xpub"));
}

#[test]
fn login_failures() {
    let rec = prepare_new_user(request("0701", "pw"), "pepper").unwrap();
    assert_eq!(verify_user(Some(stored(&rec)), "wrong").err(), Some(LoginError::InvalidPassword));
    assert_eq!(verify_user(None, "pw").err(), Some(LoginError::NotFound));
    let mut broken = stored(&rec);
    broken.password_hash = "plain text".to_string();
    assert_eq!(verify_user(Some(broken), "pw").err(), Some(LoginError::InvalidHashFormat));
}

#[test]
fn issued_token_validates_to_the_user() {
    let id: u128 = 0x0123_4567_89ab_4def_8123_456789abcdef;
    let token = generate_token(&user(id, Some("Amina")), "server secret").unwrap();
    assert_eq!(validate_token_and_get_id(&token, Some("server secret")), Ok(id));
    assert_eq!(validate_token_and_get_id(&token, Some("other secret")), Err(TokenError::Invalid));
    assert_eq!(validate_token_and_get_id(&token, None), Err(TokenError::MissingSecret));
    assert_eq!(validate_token_and_get_id("garbage", Some("server secret")), Err(TokenError::Invalid));
}

#[test]
fn token_claims_are_subject_name_and_expiry() {
    let id: u128 = 0x0123_4567_89ab_4def_8123_456789abcdef;
    let token = token_with_expiry(&user(id, Some("Amina")), "k", 4_000_000_000).unwrap();
    let body = token.split('.').nth(1).unwrap();
    let json = base64::engine::general_purpose::URL_SAFE_NO_PAD.decode(body).unwrap();
    let claims: serde_json::Value = serde_json::from_slice(&json).unwrap();
    assert_eq!(claims["sub"], "01234567-89ab-4def-8123-456789abcdef");
    assert_eq!(claims["name"], "Amina");
    assert_eq!(claims["exp"], 4_000_000_000i64);
    let again = token_with_expiry(&user(id, Some("Amina")), "k", 4_000_000_000).unwrap();
    assert_eq!(token, again);
}

#[test]
fn expired_token_is_reported_as_expired() {
    let token = token_with_expiry(&user(5, None), "k", 1_000).unwrap();
    assert_eq!(validate_token_and_get_id(&token, Some("k")), Err(TokenError::Expired));
}

#[test]
fn decoded_subject_must_be_a_uuid() {
    assert_eq!(token_result(JwtOutcome::Expired), Err(TokenError::Expired));
    assert_eq!(token_result(JwtOutcome::Invalid), Err(TokenError::Invalid));
    assert_eq!(token_result(JwtOutcome::Valid(None)), Err(TokenError::Invalid));
    assert_eq!(token_result(JwtOutcome::Valid(Some("not-a-uuid".to_string()))), Err(TokenError::Invalid));
    assert_eq!(
        token_result(JwtOutcome::Valid(Some("00000000-0000-0000-0000-00000000000a".to_string()))),
        Ok(10)
    );
}

#[test]
fn bearer_header_parsing() {
    assert_eq!(bearer_token("Bearer abc.def"), Some("abc.def".to_string()));
    assert_eq!(bearer_token("Bearer "), Some(String::new()));
    assert_eq!(bearer_token("bearer abc"), None);
    assert_eq!(bearer_token("Basic abc"), None);
    assert_eq!(bearer_token(""), None);
}

#[test]
fn rejection_statuses() {
    assert_eq!(auth_rejection_status(TokenError::MissingSecret), 500);
    assert_eq!(auth_rejection_status(TokenError::Expired), 401);
    assert_eq!(auth_rejection_status(TokenError::Invalid), 401);
}

#[test]
fn guard_decisions() {
    assert!(matches!(guard_decision(true, None, None), GuardDecision::PassThrough));
    assert!(matches!(guard_decision(false, None, Some("k")), GuardDecision::Reject(401)));
    assert!(matches!(guard_decision(false, Some("Token x"), Some("k")), GuardDecision::Reject(401)));
    assert!(matches!(guard_decision(false, Some("Bearer x"), None), GuardDecision::Reject(500)));
    assert!(matches!(guard_decision(false, Some("Bearer x"), Some("k")), GuardDecision::Reject(401)));
    let token = generate_token(&user(77, None), "k").unwrap();
    let header = format!("Bearer {}", token);
    assert!(matches!(guard_decision(false, Some(&header), Some("k")), GuardDecision::Admit(77)));
    let old = token_with_expiry(&user(77, None), "k", 1_000).unwrap();
    let old_header = format!("Bearer {}", old);
    assert!(matches!(guard_decision(false, Some(&old_header), Some("k")), GuardDecision::Reject(401)));
}

#[test]
fn discoverable_key_spelled_from_positions() {
    let k = discoverable_key_from(&[0, 1, 7, 8, 15, 16, 20, 21, 31, 32, 42, 56]);
    assert_eq!(k, "239AHJNPZakz");
    assert_eq!(discoverable_key_from(&[0; 12]), "222222222222");
}

#[test]
fn unused_discoverable_keys() {
    let taken = vec!["222222222222".to_string(), "abcdefghijkm".to_string()];
    assert!(key_is_taken("abcdefghijkm", &taken));
    assert!(!key_is_taken("abcdefghijkn", &taken));
    let fresh = generate_unused_discoverable_key(&taken);
    assert!(!taken.contains(&fresh));
    assert_eq!(validate_search_key(&fresh), Ok(()));
    let rec = prepare_new_user(request("0702", "pw"), "pepper").unwrap();
    let key = rec.discoverable_key.clone();
    let kept = with_unused_discoverable_key(rec, &taken);
    assert_eq!(kept.discoverable_key, key);
    let rec = prepare_new_user(request("0703", "pw"), "pepper").unwrap();
    let clash = vec![rec.discoverable_key.clone()];
    let id = rec.id;
    let moved = with_unused_discoverable_key(rec, &clash);
    assert_ne!(moved.discoverable_key, clash[0]);
    assert_eq!(moved.id, id);
}

#[test]
fn listed_keys_follow_base57_digits() {
    assert_eq!(enumerated_discoverable_key(0), "222222222222");
    assert_eq!(enumerated_discoverable_key(1), "322222222222");
    assert_eq!(enumerated_discoverable_key(56), "z22222222222");
    assert_eq!(enumerated_discoverable_key(57), "232222222222");
    assert_eq!(enumerated_discoverable_key(57 * 57 + 8), "A23222222222");
}

#[test]
fn first_free_listed_key_skips_taken_keys() {
    assert_eq!(first_free_listed_key(&vec![]), "222222222222");
    let taken = vec!["322222222222".to_string(), "222222222222".to_string(), "junk".to_string()];
    assert_eq!(first_free_listed_key(&taken), "422222222222");
}

#[test]
fn unused_key_is_always_found() {
    let taken: Vec<String> = (0..200).map(enumerated_discoverable_key).collect();
    for _ in 0..20 {
        let k = generate_unused_discoverable_key(&taken);
        assert!(!taken.contains(&k));
        assert_eq!(validate_search_key(&k), Ok(()));
    }
}

#[test]
fn trust_can_only_be_lowered() {
    assert!(trust_change_allowed(&ScoreUpdate { score: -5 }));
    assert!(trust_change_allowed(&ScoreUpdate { score: 0 }));
    assert!(!trust_change_allowed(&ScoreUpdate { score: 1 }));
    assert!(!trust_change_allowed(&ScoreUpdate { score: i32::MAX }));
}

#[test]
fn token_expires_a_day_after_issue() {
    let u = user(5, Some("Juma"));
    let at = token_at(&u, "k", 1_700_000_000).unwrap();
    assert_eq!(at, token_with_expiry(&u, "k", 1_700_086_400).unwrap());
    assert_ne!(at, token_with_expiry(&u, "k", 1_700_000_000).unwrap());
    assert_eq!(token_at(&u, "k", i64::MAX - 10), Err(TokenError::ExpirationOutOfRange));
}

#[test]
fn guard_decision_from_validation() {
    assert!(matches!(decision_from(Ok(42)), GuardDecision::Admit(42)));
    assert!(matches!(decision_from(Err(TokenError::Invalid)), GuardDecision::Reject(401)));
    assert!(matches!(decision_from(Err(TokenError::Expired)), GuardDecision::Reject(401)));
    assert!(matches!(decision_from(Err(TokenError::MissingSecret)), GuardDecision::Reject(500)));
    let forged = token_with_expiry(&user(77, None), "other secret", 4_000_000_000).unwrap();
    let header = format!("Bearer {}", forged);
    assert!(matches!(guard_decision(false, Some(&header), Some("k")), GuardDecision::Reject(401)));
    assert!(matches!(guard_decision(true, Some(&header), Some("k")), GuardDecision::PassThrough));
}
