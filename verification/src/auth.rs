//! Session tokens and the decisions of the request guard.
use vstd::prelude::*;

use crate::accounts::AuthenticatedUser;
use crate::primitives::{
    hs256_verifies, unix_now, jwt_decode_subject, jwt_encode_hs256, jwt_hs256, jwt_sub, uuid_from_text, uuid_parse, JwtOutcome,
};
use crate::text::{chars_of, starts_with, starts_with_spec, string_of};
use vstd::utf8::encode_utf8;

verus! {

/// Why a session token was refused.
#[derive(Clone, Copy, PartialEq, Eq, Structural, Debug)]
pub enum TokenError {
    /// The server has no signing secret configured.
    MissingSecret,
    /// The token has expired.
    Expired,
    /// The token is invalid: bad signature, malformed, or its subject is not a user id.
    Invalid,
    /// The expiry instant does not fit a 64-bit timestamp.
    ExpirationOutOfRange,
    /// The token could not be encoded.
    EncodingFailed,
}

/// The text of an optional string.
pub open spec fn opt_text(o: Option<String>) -> Option<Seq<char>> {
    match o {
        Some(s) => Some(s@),
        None => None,
    }
}

/// The user id that a decoded token gives, or why it gives none.
pub open spec fn token_result_spec(outcome: JwtOutcome) -> Result<u128, TokenError> {
    match outcome {
        JwtOutcome::Expired => Err(TokenError::Expired),
        JwtOutcome::Invalid => Err(TokenError::Invalid),
        JwtOutcome::Valid(None) => Err(TokenError::Invalid),
        JwtOutcome::Valid(Some(sub)) => match uuid_parse(sub@) {
            Some(id) => Ok(id),
            None => Err(TokenError::Invalid),
        },
    }
}

/// Reads the user id out of a decoded token: the `sub` claim must be a UUID.
pub fn token_result(outcome: JwtOutcome) -> (r: Result<u128, TokenError>)
    ensures
        r == token_result_spec(outcome),
{
    match outcome {
        JwtOutcome::Expired => Err(TokenError::Expired),
        JwtOutcome::Invalid => Err(TokenError::Invalid),
        JwtOutcome::Valid(None) => Err(TokenError::Invalid),
        JwtOutcome::Valid(Some(sub)) => match uuid_from_text(sub.as_str()) {
            Some(id) => Ok(id),
            None => Err(TokenError::Invalid),
        },
    }
}

/// The text of an optional secret.
pub open spec fn secret_text(secret: Option<&str>) -> Option<Seq<char>> {
    match secret {
        Some(s) => Some(s@),
        None => None,
    }
}

/// What validating `token` under the server's secret (if any) may answer: `MissingSecret` exactly
/// when there is no secret; a user id only for a token whose signature verifies under the secret
/// and whose `sub` claim is that id; `Expired` only for a token whose signature verifies; for a token
/// issued under the secret with a non-negative expiry, its user or `Expired`; and otherwise what
/// `token_result` makes of some decoding outcome.
pub open spec fn validation_allowed(token: Seq<char>, secret: Option<Seq<char>>, r: Result<u128, TokenError>) -> bool {
    &&& (r == Err::<u128, TokenError>(TokenError::MissingSecret) <==> secret is None)
    &&& (r matches Ok(id) ==> secret is Some && hs256_verifies(token, encode_utf8(secret->0)) && (jwt_sub(token) matches Some(
        s,
    ) && uuid_parse(s) == Some(id)))
    &&& (r == Err::<u128, TokenError>(TokenError::Expired) ==> secret is Some && hs256_verifies(token, encode_utf8(secret->0)))
    &&& (secret is Some ==> exists|outcome: JwtOutcome| r == #[trigger] token_result_spec(outcome))
    &&& forall|sub: u128, name: Option<Seq<char>>, exp: i64|
        secret is Some && exp >= 0 && token == #[trigger] jwt_hs256(sub, name, exp, encode_utf8(secret->0)) ==> (r == Ok::<
            u128,
            TokenError,
        >(sub) || r == Err::<u128, TokenError>(TokenError::Expired))
}

/// Validates a session token against the server's secret and gives the user id it carries.
/// Without a secret the token is refused with `MissingSecret`; otherwise the answer is
/// `token_result` of what decoding the token (which also depends on the clock) gave.
pub fn validate_token_and_get_id(token: &str, secret: Option<&str>) -> (r: Result<u128, TokenError>)
    ensures
        secret is None ==> r == Err::<u128, TokenError>(TokenError::MissingSecret),
        secret is Some ==> exists|outcome: JwtOutcome| r == #[trigger] token_result_spec(outcome),
        r matches Ok(id) ==> secret is Some && hs256_verifies(token@, encode_utf8(secret->0@)) && (jwt_sub(token@) matches Some(
            s,
        ) && uuid_parse(s) == Some(id)),
        r == Err::<u128, TokenError>(TokenError::Expired) ==> secret is Some && hs256_verifies(token@, encode_utf8(secret->0@)),
        r == Err::<u128, TokenError>(TokenError::MissingSecret) <==> secret is None,
        validation_allowed(token@, secret_text(secret), r),
        forall|sub: u128, name: Option<Seq<char>>, exp: i64|
            secret is Some && exp >= 0 && token@ == #[trigger] jwt_hs256(sub, name, exp, encode_utf8(secret->0@))
                ==> (r == Ok::<u128, TokenError>(sub) || r == Err::<u128, TokenError>(TokenError::Expired)),
{
    match secret {
        None => Err(TokenError::MissingSecret),
        Some(s) => {
            let outcome = jwt_decode_subject(token, s.as_bytes());
            let ghost o = outcome;
            let r = token_result(outcome);
            assert(r == token_result_spec(o));
            proof {
                if let JwtOutcome::Valid(Some(sub)) = o {
                    assert(jwt_sub(token@) == Some(sub@));
                }
            }
            r
        },
    }
}

/// The token for a user with the given expiry: its claims are the user's id and name and the expiry.
pub fn token_with_expiry(user: &AuthenticatedUser, secret: &str, exp: i64) -> (r: Result<String, TokenError>)
    ensures
        r matches Ok(t) ==> t@ == jwt_hs256(
            user.uuid,
            opt_text(user.name),
            exp,
            encode_utf8(secret@),
        ),
        r is Ok,
        r matches Ok(t) ==> hs256_verifies(t@, encode_utf8(secret@)) && (jwt_sub(t@) matches Some(st) && uuid_parse(st)
            == Some(user.uuid)),
{
    let name: Option<&str> = match &user.name {
        Some(n) => Some(n.as_str()),
        None => None,
    };
    match jwt_encode_hs256(user.uuid, name, exp, secret.as_bytes()) {
        Some(t) => Ok(t),
        None => Err(TokenError::EncodingFailed),
    }
}

/// How long a session token lives: twenty-four hours, in seconds.
pub const TOKEN_LIFETIME_SECS: i64 = 86400;

/// The token issued at the Unix time `now`: it expires `TOKEN_LIFETIME_SECS` later; refused when
/// that instant does not fit a 64-bit timestamp.
pub fn token_at(user: &AuthenticatedUser, secret: &str, now: i64) -> (r: Result<String, TokenError>)
    ensures
        now + TOKEN_LIFETIME_SECS <= i64::MAX ==> (r matches Ok(t) && t@ == jwt_hs256(
            user.uuid,
            opt_text(user.name),
            (now + TOKEN_LIFETIME_SECS) as i64,
            encode_utf8(secret@),
        ) && hs256_verifies(t@, encode_utf8(secret@)) && (jwt_sub(t@) matches Some(st) && uuid_parse(st) == Some(
            user.uuid,
        ))),
        now + TOKEN_LIFETIME_SECS > i64::MAX ==> r == Err::<String, TokenError>(TokenError::ExpirationOutOfRange),
{
    match now.checked_add(TOKEN_LIFETIME_SECS) {
        None => Err(TokenError::ExpirationOutOfRange),
        Some(exp) => token_with_expiry(user, secret, exp),
    }
}

/// Issues a session token for a user that expires twenty-four hours from now: `token_at` of the
/// current time, which the clock gives (a time since the epoch, so the expiry is not negative).
pub fn generate_token(user: &AuthenticatedUser, secret: &str) -> (r: Result<String, TokenError>)
    ensures
        r is Ok,
        r matches Ok(t) ==> exists|now: i64|
            0 <= now <= 9_000_000_000_000 && t@ == #[trigger] jwt_hs256(
                user.uuid,
                opt_text(user.name),
                (now + TOKEN_LIFETIME_SECS) as i64,
                encode_utf8(secret@),
            ),
        r matches Ok(t) ==> hs256_verifies(t@, encode_utf8(secret@)) && (jwt_sub(t@) matches Some(st) && uuid_parse(st)
            == Some(user.uuid)),
{
    let now = unix_now();
    token_at(user, secret, now)
}

/// The prefix of a bearer credential in the `Authorization` header.
pub open spec fn bearer_prefix() -> Seq<char> {
    seq!['B', 'e', 'a', 'r', 'e', 'r', ' ']
}

/// The token that an `Authorization` header carries: what follows `Bearer `, if it begins so.
pub open spec fn bearer_token_spec(header: Seq<char>) -> Option<Seq<char>> {
    if starts_with_spec(header, bearer_prefix()) {
        Some(header.skip(7))
    } else {
        None
    }
}

/// Reads the token out of an `Authorization` header value.
pub fn bearer_token(header: &str) -> (r: Option<String>)
    ensures
        match bearer_token_spec(header@) {
            Some(t) => r matches Some(s) && s@ == t,
            None => r is None,
        },
{
    let cs = chars_of(header);
    let prefix: Vec<char> = vec!['B', 'e', 'a', 'r', 'e', 'r', ' '];
    assert(prefix@ =~= bearer_prefix());
    if !starts_with(&cs, &prefix) {
        return None;
    }
    let mut rest: Vec<char> = Vec::new();
    let mut i: usize = 7;
    while i < cs.len()
        invariant
            7 <= i <= cs@.len(),
            rest@ == cs@.subrange(7, i as int),
        decreases cs@.len() - i,
    {
        rest.push(cs[i]);
        i += 1;
        assert(rest@ =~= cs@.subrange(7, i as int));
    }
    assert(rest@ =~= header@.skip(7));
    Some(string_of(&rest))
}

/// The status with which the request guard refuses a request whose token failed: a missing
/// server secret is the server's fault (500); every other failure is unauthorized (401).
pub fn auth_rejection_status(err: TokenError) -> (status: u16)
    ensures
        status == (if err == TokenError::MissingSecret { 500u16 } else { 401u16 }),
{
    match err {
        TokenError::MissingSecret => 500,
        _ => 401,
    }
}

/// What the request guard does with a request.
pub enum GuardDecision {
    /// Let the request through unauthenticated (a CORS preflight).
    PassThrough,
    /// Refuse it with this status.
    Reject(u16),
    /// Let it through as this user.
    Admit(u128),
}

/// The guard's answer to a request with a bearer token, from the token's validation: the user it
/// names is admitted; a refusal gets `auth_rejection_status`.
pub open spec fn decision_spec(r: Result<u128, TokenError>) -> GuardDecision {
    match r {
        Ok(id) => GuardDecision::Admit(id),
        Err(e) => GuardDecision::Reject(if e == TokenError::MissingSecret { 500u16 } else { 401u16 }),
    }
}

/// The guard's answer to a request with a bearer token, from the token's validation.
pub fn decision_from(r: Result<u128, TokenError>) -> (d: GuardDecision)
    ensures
        d == decision_spec(r),
{
    match r {
        Ok(id) => GuardDecision::Admit(id),
        Err(e) => GuardDecision::Reject(auth_rejection_status(e)),
    }
}

/// Decides a request: preflight requests pass; a request without a bearer token is refused with
/// 401; otherwise the token's validation decides, refusals getting `auth_rejection_status`.
pub fn guard_decision(is_preflight: bool, authorization: Option<&str>, secret: Option<&str>) -> (d: GuardDecision)
    ensures
        d is PassThrough <==> is_preflight,
        !is_preflight && authorization is Some && bearer_token_spec(authorization->0@) is Some ==> exists|r: Result<
            u128,
            TokenError,
        >| validation_allowed(bearer_token_spec(authorization->0@)->0, secret_text(secret), r) && d == #[trigger] decision_spec(r),
        !is_preflight && (authorization is None || bearer_token_spec(authorization->0@) is None) ==> d == GuardDecision::Reject(
            401,
        ),
        !is_preflight && authorization is Some && bearer_token_spec(authorization->0@) is Some && secret is None
            ==> d == GuardDecision::Reject(500),
        d matches GuardDecision::Admit(id) ==> !is_preflight && secret is Some && authorization is Some && (bearer_token_spec(
            authorization->0@,
        ) matches Some(t) && hs256_verifies(t, encode_utf8(secret->0@)) && (jwt_sub(t) matches Some(s) && uuid_parse(s)
            == Some(id))),
        d == GuardDecision::Reject(500) ==> !is_preflight && secret is None,
        d matches GuardDecision::Reject(code) ==> code == 401 || code == 500,
        forall|sub: u128, name: Option<Seq<char>>, exp: i64|
            !is_preflight && authorization is Some && secret is Some && exp >= 0 && bearer_token_spec(authorization->0@)
                == Some(#[trigger] jwt_hs256(sub, name, exp, encode_utf8(secret->0@))) ==> (d == GuardDecision::Admit(sub)
                || d == GuardDecision::Reject(401)),
{
    if is_preflight {
        return GuardDecision::PassThrough;
    }
    let header = match authorization {
        None => {
            return GuardDecision::Reject(401);
        },
        Some(h) => h,
    };
    let token = match bearer_token(header) {
        None => {
            return GuardDecision::Reject(401);
        },
        Some(t) => t,
    };
    let r = validate_token_and_get_id(token.as_str(), secret);
    decision_from(r)
}

} // verus!
