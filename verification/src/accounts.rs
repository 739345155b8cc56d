//! User accounts: registration, credential checks, discoverable keys and counters.
use vstd::prelude::*;

use crate::primitives::{
    argon2_accepts, argon2_check, argon2_hash_password, new_uuid_v4, phc_parses, random_index_below, sha256,
    sha256_digest, PasswordCheck,
};
use crate::text::{hex_encode, hex_lower, text_eq};
use crate::bytes::concat_bytes;
use vstd::utf8::encode_utf8;

verus! {

/// What a new user submits.
pub struct RegisterRequest {
    pub name: String,
    pub phone_number: String,
    pub password: String,
    pub x_public: String,
    pub pq_public: String,
}

/// What a returning user submits.
pub struct LoginRequest {
    pub phone_number: String,
    pub password: String,
}

/// A search for another user by discoverable key.
pub struct DiscoverableSearchRequest {
    pub key: String,
}

/// A change to a user's trust score.
pub struct ScoreUpdate {
    pub score: i32,
}

/// Whether a transaction starts or ends.
#[derive(Clone, Copy, PartialEq, Eq, Structural, Debug)]
pub enum TransactionUpdateOption {
    Start,
    End,
}

/// A change to a user's count of active transactions.
pub struct TransactionUpdate {
    pub option: TransactionUpdateOption,
}

/// A user as stored: the account row.
pub struct User {
    pub id: u128,
    pub name: String,
    pub phone_number_hash: String,
    pub password_hash: String,
    pub trust_score: Option<i32>,
    pub active_transactions: Option<i32>,
    pub discoverable_key: String,
    pub x_public: String,
    pub pq_public: String,
}

/// A user whose identity has been established.
pub struct AuthenticatedUser {
    pub uuid: u128,
    pub name: Option<String>,
    pub trust_score: Option<i32>,
    pub active_transactions: Option<i32>,
    pub discoverable_key: Option<String>,
    pub x_public: Option<String>,
    pub pq_public: Option<String>,
}

/// By how much a transaction update changes the count of active transactions.
pub open spec fn transaction_change_spec(option: TransactionUpdateOption) -> int {
    match option {
        TransactionUpdateOption::Start => 1,
        TransactionUpdateOption::End => -1,
    }
}

/// By how much a transaction update changes the count of active transactions.
pub fn active_transaction_change(option: TransactionUpdateOption) -> (d: i32)
    ensures
        d == transaction_change_spec(option),
{
    match option {
        TransactionUpdateOption::Start => 1,
        TransactionUpdateOption::End => -1,
    }
}

/// Whether a trust-score update may be applied: trust can only be broken, never rebuilt, so an
/// update may lower the score or leave it, never raise it.
pub fn trust_change_allowed(update: &ScoreUpdate) -> (b: bool)
    ensures
        b == (update.score <= 0),
{
    update.score <= 0
}

/// The trust score after a series of changes, applied in order from `score`.
pub open spec fn trust_after(score: int, changes: Seq<i32>) -> int
    decreases changes.len(),
{
    if changes.len() == 0 {
        score
    } else {
        trust_after(score + changes[0], changes.drop_first())
    }
}

/// Law: once trust is lowered it never comes back: after any series of updates that
/// `trust_change_allowed` lets through, the score is at most what it was before each of them.
pub proof fn lemma_trust_never_rises(score: int, changes: Seq<i32>)
    requires
        forall|i: int| 0 <= i < changes.len() ==> #[trigger] changes[i] <= 0,
    ensures
        trust_after(score, changes) <= score,
        forall|k: int| 0 <= k <= changes.len() ==> trust_after(score, changes) <= #[trigger] trust_after(score, changes.take(k)),
    decreases changes.len(),
{
    if changes.len() > 0 {
        let rest = changes.drop_first();
        lemma_trust_never_rises(score + changes[0], rest);
        assert forall|k: int| 0 <= k <= changes.len() implies trust_after(score, changes) <= #[trigger] trust_after(score, changes.take(k)) by {
            if k > 0 {
                assert(changes.take(k).drop_first() =~= rest.take(k - 1));
                assert(changes.take(k)[0] == changes[0]);
                assert(trust_after(score, changes.take(k)) == trust_after(score + changes[0], rest.take(k - 1)));
                assert(trust_after(score + changes[0], rest) <= trust_after(score + changes[0], rest.take(k - 1)));
            } else {
                assert(changes.take(k).len() == 0);
            }
        }
    }
}

/// The length of a discoverable key.
pub const DISCOVERABLE_KEY_LEN: usize = 12;

/// The characters of discoverable keys, in order: digits 2-9, upper-case letters but I and O,
/// lower-case letters but l (characters that are easily confused are left out).
pub open spec fn discoverable_char(i: int) -> char {
    if i < 8 {
        ('2' as int + i) as char
    } else if i < 16 {
        ('A' as int + (i - 8)) as char
    } else if i < 21 {
        ('J' as int + (i - 16)) as char
    } else if i < 32 {
        ('P' as int + (i - 21)) as char
    } else if i < 43 {
        ('a' as int + (i - 32)) as char
    } else {
        ('m' as int + (i - 43)) as char
    }
}

/// The number of characters that discoverable keys are drawn from.
pub const DISCOVERABLE_ALPHABET_LEN: usize = 57;

/// The alphabet of discoverable keys.
pub open spec fn discoverable_alphabet() -> Seq<char> {
    Seq::new(DISCOVERABLE_ALPHABET_LEN as nat, |i: int| discoverable_char(i))
}

fn alphabet_char(i: usize) -> (c: char)
    requires
        i < DISCOVERABLE_ALPHABET_LEN,
    ensures
        c == discoverable_char(i as int),
        (c as u32) < 128,
{
    let i = i as u32;
    if i < 8 {
        char_of(50 + i)
    } else if i < 16 {
        char_of(65 + (i - 8))
    } else if i < 21 {
        char_of(74 + (i - 16))
    } else if i < 32 {
        char_of(80 + (i - 21))
    } else if i < 43 {
        char_of(97 + (i - 32))
    } else {
        char_of(109 + (i - 43))
    }
}

fn char_of(v: u32) -> (c: char)
    requires
        v < 128,
    ensures
        c as u32 == v,
        c == v as char,
{
    (v as u8) as char
}

/// A discoverable key: twelve characters of the alphabet.
pub open spec fn is_discoverable_key(k: Seq<char>) -> bool {
    k.len() == DISCOVERABLE_KEY_LEN && forall|i: int| 0 <= i < k.len() ==> discoverable_alphabet().contains(#[trigger] k[i])
}

/// The discoverable key spelled by twelve alphabet positions.
pub open spec fn key_of_indices(indices: Seq<usize>) -> Seq<char> {
    Seq::new(DISCOVERABLE_KEY_LEN as nat, |i: int| discoverable_char(indices[i] as int))
}

/// The discoverable key spelled by twelve positions in the alphabet.
pub fn discoverable_key_from(indices: &[usize; 12]) -> (k: String)
    requires
        forall|i: int| 0 <= i < 12 ==> indices@[i] < DISCOVERABLE_ALPHABET_LEN,
    ensures
        k@ == key_of_indices(indices@),
        is_discoverable_key(k@),
        encode_utf8(k@).len() == DISCOVERABLE_KEY_LEN,
{
    let mut out = String::new();
    let mut n: usize = 0;
    while n < DISCOVERABLE_KEY_LEN
        invariant
            n <= DISCOVERABLE_KEY_LEN,
            forall|i: int| 0 <= i < 12 ==> indices@[i] < DISCOVERABLE_ALPHABET_LEN,
            out@ == key_of_indices(indices@).take(n as int),
            vstd::utf8::is_ascii_chars(out@),
        decreases DISCOVERABLE_KEY_LEN - n,
    {
        let c = alphabet_char(indices[n]);
        crate::primitives::push_char(&mut out, c);
        n += 1;
        assert(out@ =~= key_of_indices(indices@).take(n as int));
    }
    assert(out@ =~= key_of_indices(indices@));
    proof {
        vstd::utf8::is_ascii_chars_encode_utf8(out@);
        assert forall|i: int| 0 <= i < out@.len() implies discoverable_alphabet().contains(#[trigger] out@[i]) by {
            assert(discoverable_alphabet()[indices@[i] as int] == out@[i]);
        }
    }
    out
}

/// Generates a fresh random discoverable key: twelve positions drawn uniformly from the alphabet,
/// spelled out by `discoverable_key_from`. Its text is twelve bytes long, so the discoverable-key
/// search accepts it.
pub fn generate_discoverable_key() -> (k: String)
    ensures
        exists|indices: Seq<usize>| indices.len() == DISCOVERABLE_KEY_LEN && (forall|i: int|
            0 <= i < DISCOVERABLE_KEY_LEN ==> #[trigger] indices[i] < DISCOVERABLE_ALPHABET_LEN) && k@ == key_of_indices(indices),
        is_discoverable_key(k@),
        encode_utf8(k@).len() == DISCOVERABLE_KEY_LEN,
{
    let mut indices = [0usize; 12];
    let mut n: usize = 0;
    while n < DISCOVERABLE_KEY_LEN
        invariant
            n <= DISCOVERABLE_KEY_LEN,
            forall|i: int| 0 <= i < 12 ==> indices@[i] < DISCOVERABLE_ALPHABET_LEN,
        decreases DISCOVERABLE_KEY_LEN - n,
    {
        let idx = random_index_below(DISCOVERABLE_ALPHABET_LEN);
        indices[n] = idx;
        n += 1;
    }
    discoverable_key_from(&indices)
}

/// Whether a key is one of the keys already handed out.
pub fn key_is_taken(key: &str, taken: &Vec<String>) -> (b: bool)
    ensures
        b == exists|j: int| 0 <= j < taken@.len() && (#[trigger] taken@[j])@ == key@,
{
    let mut j: usize = 0;
    while j < taken.len()
        invariant
            j <= taken@.len(),
            forall|i: int| 0 <= i < j ==> (#[trigger] taken@[i])@ != key@,
        decreases taken@.len() - j,
    {
        if text_eq(taken[j].as_str(), key) {
            return true;
        }
        j += 1;
    }
    false
}

/// 57 to the power `n`.
pub open spec fn pow57(n: nat) -> nat
    decreases n,
{
    if n == 0 {
        1
    } else {
        57 * pow57((n - 1) as nat)
    }
}

/// The `n` lowest base-57 digits of `k`, lowest first.
pub open spec fn base57_digits(k: nat, n: nat) -> Seq<nat>
    decreases n,
{
    if n == 0 {
        Seq::<nat>::empty()
    } else {
        seq![k % 57] + base57_digits(k / 57, (n - 1) as nat)
    }
}

/// The key numbered `k` when all keys are listed in order: the alphabet positions of its twelve
/// characters are the base-57 digits of `k`, lowest first.
pub open spec fn enumerated_key(k: nat) -> Seq<char> {
    Seq::new(DISCOVERABLE_KEY_LEN as nat, |i: int| discoverable_char(base57_digits(k, 12)[i] as int))
}

proof fn lemma_digits_shape(k: nat, n: nat)
    ensures
        base57_digits(k, n).len() == n,
        forall|i: int| 0 <= i < n ==> #[trigger] base57_digits(k, n)[i] < 57,
    decreases n,
{
    if n > 0 {
        lemma_digits_shape(k / 57, (n - 1) as nat);
        assert forall|i: int| 0 <= i < n implies #[trigger] base57_digits(k, n)[i] < 57 by {
            if i > 0 {
                assert(base57_digits(k, n)[i] == base57_digits(k / 57, (n - 1) as nat)[i - 1]);
            }
        }
    }
}

proof fn lemma_digits_injective(a: nat, b: nat, n: nat)
    requires
        base57_digits(a, n) == base57_digits(b, n),
        a < pow57(n),
        b < pow57(n),
    ensures
        a == b,
    decreases n,
{
    if n > 0 {
        let p = pow57((n - 1) as nat);
        assert(base57_digits(a, n)[0] == a % 57);
        assert(base57_digits(b, n)[0] == b % 57);
        assert(base57_digits(a, n).drop_first() =~= base57_digits(a / 57, (n - 1) as nat));
        assert(base57_digits(b, n).drop_first() =~= base57_digits(b / 57, (n - 1) as nat));
        assert(a / 57 < p) by (nonlinear_arith)
            requires
                a < 57 * p,
        ;
        assert(b / 57 < p) by (nonlinear_arith)
            requires
                b < 57 * p,
        ;
        lemma_digits_injective(a / 57, b / 57, (n - 1) as nat);
        vstd::arithmetic::div_mod::lemma_fundamental_div_mod(a as int, 57);
        vstd::arithmetic::div_mod::lemma_fundamental_div_mod(b as int, 57);
    }
}

/// The code point of the alphabet character at position `i`.
spec fn discoverable_code(i: int) -> int {
    if i < 8 {
        50 + i
    } else if i < 16 {
        65 + (i - 8)
    } else if i < 21 {
        74 + (i - 16)
    } else if i < 32 {
        80 + (i - 21)
    } else if i < 43 {
        97 + (i - 32)
    } else {
        109 + (i - 43)
    }
}

proof fn lemma_discoverable_char_injective(i: int, j: int)
    requires
        0 <= i < 57,
        0 <= j < 57,
        discoverable_char(i) == discoverable_char(j),
    ensures
        i == j,
{
    assert(discoverable_char(i) as int == discoverable_code(i));
    assert(discoverable_char(j) as int == discoverable_code(j));
}

/// Different numbers below 57^12 list different keys.
proof fn lemma_enumerated_key_injective(a: nat, b: nat)
    requires
        a < pow57(12),
        b < pow57(12),
        enumerated_key(a) == enumerated_key(b),
    ensures
        a == b,
{
    lemma_digits_shape(a, 12);
    lemma_digits_shape(b, 12);
    assert forall|i: int| 0 <= i < 12 implies base57_digits(a, 12)[i] == base57_digits(b, 12)[i] by {
        assert(enumerated_key(a)[i] == discoverable_char(base57_digits(a, 12)[i] as int));
        assert(enumerated_key(b)[i] == discoverable_char(base57_digits(b, 12)[i] as int));
        lemma_discoverable_char_injective(base57_digits(a, 12)[i] as int, base57_digits(b, 12)[i] as int);
    }
    assert(base57_digits(a, 12) =~= base57_digits(b, 12));
    lemma_digits_injective(a, b, 12);
}

proof fn lemma_pow57_12()
    ensures
        pow57(12) == 1176246293903439668001,
{
    reveal_with_fuel(pow57, 13);
}

/// The key numbered `k` when all discoverable keys are listed in order (see `enumerated_key`).
pub fn enumerated_discoverable_key(k: usize) -> (s: String)
    ensures
        s@ == enumerated_key(k as nat),
        is_discoverable_key(s@),
        encode_utf8(s@).len() == DISCOVERABLE_KEY_LEN,
{
    let ghost digits = base57_digits(k as nat, 12);
    proof {
        lemma_digits_shape(k as nat, 12);
    }
    let mut indices = [0usize; 12];
    let mut cur: usize = k;
    let mut n: usize = 0;
    while n < DISCOVERABLE_KEY_LEN
        invariant
            n <= DISCOVERABLE_KEY_LEN,
            digits == base57_digits(k as nat, 12),
            digits.len() == 12,
            digits.skip(n as int) =~= base57_digits(cur as nat, (12 - n) as nat),
            forall|i: int| 0 <= i < n ==> indices@[i] == digits[i],
            forall|i: int| 0 <= i < 12 ==> indices@[i] < DISCOVERABLE_ALPHABET_LEN,
        decreases DISCOVERABLE_KEY_LEN - n,
    {
        let ghost rest = base57_digits(cur as nat, (12 - n) as nat);
        assert(rest == seq![(cur as nat) % 57] + base57_digits((cur as nat) / 57, (12 - n - 1) as nat));
        assert(digits[n as int] == digits.skip(n as int)[0]);
        indices[n] = cur % 57;
        assert(digits.skip(n as int + 1) =~= rest.drop_first());
        cur = cur / 57;
        n += 1;
    }
    let s = discoverable_key_from(&indices);
    assert(s@ =~= enumerated_key(k as nat));
    s
}

/// Pigeonhole: among the first `n` listed keys, more than there are taken keys, one is not taken.
proof fn lemma_some_listed_key_is_free(taken: Seq<Seq<char>>, n: nat)
    requires
        taken.len() < n,
        n <= pow57(12),
    ensures
        exists|i: nat| i < n && !taken.contains(#[trigger] enumerated_key(i)),
{
    if forall|i: nat| i < n ==> taken.contains(#[trigger] enumerated_key(i)) {
        let listed = Seq::new(n, |i: int| enumerated_key(i as nat));
        assert(listed.no_duplicates()) by {
            assert forall|i: int, j: int| 0 <= i < listed.len() && 0 <= j < listed.len() && i != j implies listed[i] != listed[j] by {
                if listed[i] == listed[j] {
                    lemma_enumerated_key_injective(i as nat, j as nat);
                }
            }
        }
        listed.unique_seq_to_set();
        taken.lemma_cardinality_of_set();
        vstd::seq_lib::seq_to_set_is_finite(taken);
        assert(listed.to_set().subset_of(taken.to_set())) by {
            assert forall|x: Seq<char>| listed.to_set().contains(x) implies taken.to_set().contains(x) by {
                let i = choose|i: int| 0 <= i < listed.len() && listed[i] == x;
                assert(taken.contains(enumerated_key(i as nat)));
            }
        }
        vstd::set_lib::lemma_len_subset(listed.to_set(), taken.to_set());
    }
}

/// The keys handed out, as character sequences.
pub open spec fn taken_keys(taken: Seq<String>) -> Seq<Seq<char>> {
    taken.map_values(|s: String| s@)
}

/// The first key in listing order (`enumerated_key`) that none of the `taken` keys equals. One
/// always exists: there are more keys than `taken` can hold.
pub fn first_free_listed_key(taken: &Vec<String>) -> (k: String)
    ensures
        exists|i: nat| {
            &&& k@ == #[trigger] enumerated_key(i)
            &&& !taken_keys(taken@).contains(k@)
            &&& forall|m: nat| m < i ==> taken_keys(taken@).contains(#[trigger] enumerated_key(m))
        },
        is_discoverable_key(k@),
        encode_utf8(k@).len() == DISCOVERABLE_KEY_LEN,
{
    let ghost keys = taken_keys(taken@);
    let mut i: usize = 0;
    loop
        invariant
            i <= taken@.len(),
            keys == taken_keys(taken@),
            keys.len() == taken@.len(),
            forall|m: nat| m < i ==> keys.contains(#[trigger] enumerated_key(m)),
        decreases taken@.len() - i,
    {
        let k = enumerated_discoverable_key(i);
        if !key_is_taken(k.as_str(), taken) {
            proof {
                if keys.contains(k@) {
                    let j = choose|j: int| 0 <= j < keys.len() && keys[j] == k@;
                    assert(taken@[j]@ == k@);
                }
                assert(k@ == enumerated_key(i as nat));
            }
            return k;
        }
        proof {
            let j = choose|j: int| 0 <= j < taken@.len() && (#[trigger] taken@[j])@ == k@;
            assert(keys[j] == k@);
            assert(keys.contains(enumerated_key(i as nat)));
        }
        if i == taken.len() {
            proof {
                lemma_pow57_12();
                lemma_some_listed_key_is_free(keys, (i + 1) as nat);
                let w = choose|w: nat| w < i + 1 && !keys.contains(#[trigger] enumerated_key(w));
                if w < i {
                    assert(keys.contains(enumerated_key(w)));
                }
                assert(false);
            }
            return k;
        }
        i += 1;
    }
}

/// How many fresh random keys are drawn before the listed keys are searched in order.
pub const DISCOVERABLE_KEY_ATTEMPTS: usize = 16;

/// Generates a discoverable key that none of the `taken` keys equals: up to
/// `DISCOVERABLE_KEY_ATTEMPTS` fresh random keys are drawn, and should every one be taken, the
/// first free key in listing order (`first_free_listed_key`) is used.
pub fn generate_unused_discoverable_key(taken: &Vec<String>) -> (k: String)
    ensures
        is_discoverable_key(k@),
        encode_utf8(k@).len() == DISCOVERABLE_KEY_LEN,
        forall|j: int| 0 <= j < taken@.len() ==> (#[trigger] taken@[j])@ != k@,
{
    let mut attempt: usize = 0;
    while attempt < DISCOVERABLE_KEY_ATTEMPTS
        invariant
            attempt <= DISCOVERABLE_KEY_ATTEMPTS,
        decreases DISCOVERABLE_KEY_ATTEMPTS - attempt,
    {
        let k = generate_discoverable_key();
        if !key_is_taken(k.as_str(), taken) {
            return k;
        }
        attempt += 1;
    }
    let k = first_free_listed_key(taken);
    proof {
        assert forall|j: int| 0 <= j < taken@.len() implies (#[trigger] taken@[j])@ != k@ by {
            assert(taken_keys(taken@)[j] == taken@[j]@);
        }
    }
    k
}

/// Law: a discoverable key is twelve bytes of text (its characters are ASCII), so the
/// discoverable-key search accepts every key that `generate_discoverable_key` can give.
pub proof fn lemma_discoverable_key_is_searchable(k: Seq<char>)
    requires
        is_discoverable_key(k),
    ensures
        encode_utf8(k).len() == DISCOVERABLE_KEY_LEN,
{
    assert forall|i: int| 0 <= i < k.len() implies '\0' <= #[trigger] k[i] <= '\u{7f}' by {
        let j = choose|j: int| 0 <= j < discoverable_alphabet().len() && discoverable_alphabet()[j] == k[i];
        assert(discoverable_alphabet()[j] == discoverable_char(j));
    }
    assert(vstd::utf8::is_ascii_chars(k));
    vstd::utf8::is_ascii_chars_encode_utf8(k);
}

/// Why a discoverable-key search was refused.
#[derive(Clone, Copy, PartialEq, Eq, Structural, Debug)]
pub enum SearchError {
    /// The key is not twelve bytes long.
    InvalidKeyFormat,
}

/// Accepts a search key only when its text is twelve bytes long.
pub fn validate_search_key(key: &str) -> (r: Result<(), SearchError>)
    ensures
        r is Ok <==> encode_utf8(key@).len() == DISCOVERABLE_KEY_LEN,
        r is Err ==> r == Err::<(), SearchError>(SearchError::InvalidKeyFormat),
{
    if key.as_bytes().len() != DISCOVERABLE_KEY_LEN {
        Err(SearchError::InvalidKeyFormat)
    } else {
        Ok(())
    }
}

/// The stored form of a phone number: the lower-case hex of the SHA-256 digest of the number's
/// bytes followed by the server's secret pepper.
pub open spec fn phone_hash_spec(phone_number: Seq<char>, pepper: Seq<char>) -> Seq<char> {
    hex_lower(sha256(encode_utf8(phone_number) + encode_utf8(pepper))@)
}

/// Hashes a phone number with the server's pepper.
pub fn phone_number_hash(phone_number: &str, pepper: &str) -> (r: String)
    ensures
        r@ == phone_hash_spec(phone_number@, pepper@),
{
    let data = concat_bytes(phone_number.as_bytes(), pepper.as_bytes());
    let digest = sha256_digest(data.as_slice());
    hex_encode(digest.as_slice())
}

/// A new account's row as it will be stored.
pub struct NewUserRecord {
    pub id: u128,
    pub name: String,
    pub phone_number_hash: String,
    pub password_hash: String,
    pub trust_score: i32,
    pub active_transactions: i32,
    pub discoverable_key: String,
    pub x_public: String,
    pub pq_public: String,
}

/// Why an account could not be prepared.
#[derive(Clone, Copy, PartialEq, Eq, Structural, Debug)]
pub enum RegisterError {
    /// Argon2 could not hash the password: it is longer than `0xFFFF_FFFF` bytes.
    PasswordHashFailed,
}

/// Prepares the row of a new account: a random id, the phone number hashed with the pepper, the
/// password hashed with Argon2 and a random salt, zero trust score and active transactions, a
/// fresh discoverable key, and the submitted name and public keys.
pub fn prepare_new_user(request: RegisterRequest, pepper: &str) -> (r: Result<NewUserRecord, RegisterError>)
    ensures
        r is Ok <==> encode_utf8(request.password@).len() <= 0xFFFF_FFFF,
        r is Err ==> r == Err::<NewUserRecord, RegisterError>(RegisterError::PasswordHashFailed),
        r matches Ok(rec) ==> {
            &&& rec.name@ == request.name@
            &&& rec.phone_number_hash@ == phone_hash_spec(request.phone_number@, pepper@)
            &&& phc_parses(rec.password_hash@)
            &&& argon2_accepts(encode_utf8(request.password@), rec.password_hash@)
            &&& rec.trust_score == 0
            &&& rec.active_transactions == 0
            &&& is_discoverable_key(rec.discoverable_key@)
            &&& rec.x_public@ == request.x_public@
            &&& rec.pq_public@ == request.pq_public@
            &&& (rec.id >> 76u128) & 0xFu128 == 4
            &&& (rec.id >> 62u128) & 0x3u128 == 2
        },
{
    let password_hash = argon2_hash_password(request.password.as_str().as_bytes());
    if password_hash.is_none() {
        return Err(RegisterError::PasswordHashFailed);
    }
    let password_hash = password_hash.unwrap();
    let phone_hash = phone_number_hash(request.phone_number.as_str(), pepper);
    let id = new_uuid_v4();
    let key = generate_discoverable_key();
    Ok(NewUserRecord {
        id,
        name: request.name,
        phone_number_hash: phone_hash,
        password_hash,
        trust_score: 0,
        active_transactions: 0,
        discoverable_key: key,
        x_public: request.x_public,
        pq_public: request.pq_public,
    })
}

/// Makes a prepared account's discoverable key one that no stored account has: a record whose key
/// is free is kept as it is; otherwise the key is replaced by a fresh unused one, every other field
/// kept.
pub fn with_unused_discoverable_key(rec: NewUserRecord, taken: &Vec<String>) -> (out: NewUserRecord)
    ensures
        !(exists|j: int| 0 <= j < taken@.len() && (#[trigger] taken@[j])@ == rec.discoverable_key@) ==> out == rec,
        out.id == rec.id,
        out.name == rec.name,
        out.phone_number_hash == rec.phone_number_hash,
        out.password_hash == rec.password_hash,
        out.trust_score == rec.trust_score,
        out.active_transactions == rec.active_transactions,
        out.x_public == rec.x_public,
        out.pq_public == rec.pq_public,
        is_discoverable_key(rec.discoverable_key@) ==> is_discoverable_key(out.discoverable_key@),
        forall|j: int| 0 <= j < taken@.len() ==> (#[trigger] taken@[j])@ != out.discoverable_key@,
{
    if !key_is_taken(rec.discoverable_key.as_str(), taken) {
        return rec;
    }
    let k = generate_unused_discoverable_key(taken);
    NewUserRecord { discoverable_key: k, ..rec }
}

/// Why a login was refused.
#[derive(Clone, Copy, PartialEq, Eq, Structural, Debug)]
pub enum LoginError {
    /// No account has this phone number.
    NotFound,
    /// The stored password hash is not a PHC hash string.
    InvalidHashFormat,
    /// The password is wrong.
    InvalidPassword,
}

/// What checking a password against the account found by phone number gives.
pub open spec fn verify_user_spec(user: Option<User>, password: Seq<char>) -> Result<u128, LoginError> {
    match user {
        None => Err(LoginError::NotFound),
        Some(u) => if !phc_parses(u.password_hash@) {
            Err(LoginError::InvalidHashFormat)
        } else if !argon2_accepts(encode_utf8(password), u.password_hash@) {
            Err(LoginError::InvalidPassword)
        } else {
            Ok(u.id)
        },
    }
}

/// Checks a password against the account that the phone-number lookup found, and on success
/// gives the authenticated user with the account's details.
pub fn verify_user(user: Option<User>, password: &str) -> (r: Result<AuthenticatedUser, LoginError>)
    ensures
        match verify_user_spec(user, password@) {
            Ok(id) => r matches Ok(a) && a.uuid == id && {
                let u = user->0;
                &&& a.name == Some(u.name)
                &&& a.trust_score == u.trust_score
                &&& a.active_transactions == u.active_transactions
                &&& a.discoverable_key == Some(u.discoverable_key)
                &&& a.x_public == Some(u.x_public)
                &&& a.pq_public == Some(u.pq_public)
            },
            Err(e) => r matches Err(f) && f == e,
        },
{
    match user {
        None => Err(LoginError::NotFound),
        Some(u) => {
            match argon2_check(password.as_bytes(), u.password_hash.as_str()) {
                PasswordCheck::Malformed => Err(LoginError::InvalidHashFormat),
                PasswordCheck::Mismatch => Err(LoginError::InvalidPassword),
                PasswordCheck::Match => Ok(
                    AuthenticatedUser {
                        uuid: u.id,
                        name: Some(u.name),
                        trust_score: u.trust_score,
                        active_transactions: u.active_transactions,
                        discoverable_key: Some(u.discoverable_key),
                        x_public: Some(u.x_public),
                        pq_public: Some(u.pq_public),
                    },
                ),
            }
        },
    }
}

/// The stored account that a prepared record becomes.
pub open spec fn stored_user(rec: NewUserRecord) -> User {
    User {
        id: rec.id,
        name: rec.name,
        phone_number_hash: rec.phone_number_hash,
        password_hash: rec.password_hash,
        trust_score: Some(rec.trust_score),
        active_transactions: Some(rec.active_transactions),
        discoverable_key: rec.discoverable_key,
        x_public: rec.x_public,
        pq_public: rec.pq_public,
    }
}

/// Law: an account prepared from a registration accepts the registered password, and it is found
/// under the hash of the registered phone number with the same pepper.
pub proof fn lemma_registered_user_can_log_in(request: RegisterRequest, pepper: Seq<char>, rec: NewUserRecord)
    requires
        rec.phone_number_hash@ == phone_hash_spec(request.phone_number@, pepper),
        phc_parses(rec.password_hash@),
        argon2_accepts(encode_utf8(request.password@), rec.password_hash@),
    ensures
        verify_user_spec(Some(stored_user(rec)), request.password@) == Ok::<u128, LoginError>(rec.id),
        stored_user(rec).phone_number_hash@ == phone_hash_spec(request.phone_number@, pepper),
{
}

} // verus!
