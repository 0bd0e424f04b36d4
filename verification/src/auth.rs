//! Accounts: nicknames, recovery codes and their Argon2 hashes.
use vstd::prelude::*;
use rand::Rng;
use argon2::password_hash::{PasswordHasher, PasswordVerifier};
use crate::text;
use crate::text::{digit_to_char, push_char, string_of, text_len, trim_text};
use crate::errors;
use crate::errors::{err, ApiError};

verus! {

broadcast use vstd::string::group_string_axioms;

// ---------------------------------------------------------------------------
// Nicknames
// ---------------------------------------------------------------------------

/// A nickname, once trimmed, must be 1 to 30 bytes long.
pub open spec fn nickname_ok(trimmed: Seq<char>) -> bool {
    trimmed.len() != 0 && text::byte_len(trimmed) <= 30
}

/// The nickname to register for what the user typed: the trimmed text, or
/// 400 when it is not 1 to 30 bytes long.
pub fn normalize_nickname(raw: &str) -> (r: Result<String, ApiError>)
    ensures
        match r {
            Ok(n) => n@ == text::trim(raw@) && nickname_ok(n@),
            Err(e) => !nickname_ok(text::trim(raw@)) && errors::is_error(
                e,
                errors::BAD_REQUEST,
                "nickname must be 1-30 chars"@,
            ),
        },
{
    let nickname = trim_text(raw);
    if nickname.as_str().is_empty() || text_len(&nickname) > 30 {
        return Err(err(errors::BAD_REQUEST, "nickname must be 1-30 chars"));
    }
    Ok(nickname)
}

/// A nickname that another account holds is refused with 409.
pub fn nickname_available(taken: bool) -> (r: Result<(), ApiError>)
    ensures
        match r {
            Ok(_) => !taken,
            Err(e) => taken && errors::is_error(e, errors::CONFLICT, "nickname already taken"@),
        },
{
    if taken {
        Err(err(errors::CONFLICT, "nickname already taken"))
    } else {
        Ok(())
    }
}

// ---------------------------------------------------------------------------
// Recovery codes
// ---------------------------------------------------------------------------

/// `n` (at most 9999) in four digits, with leading zeros.
pub open spec fn four_digits(n: int) -> Seq<char> {
    seq![
        text::digit_char(n / 1000),
        text::digit_char((n / 100) % 10),
        text::digit_char((n / 10) % 10),
        text::digit_char(n % 10),
    ]
}

/// The recovery code `STACK-aaaa-bbbb`.
pub open spec fn recovery_code_text(a: u16, b: u16) -> Seq<char> {
    "STACK-"@ + four_digits(a as int) + seq!['-'] + four_digits(b as int)
}

fn push_four_digits(out: &mut String, n: u16)
    requires
        n <= 9999,
    ensures
        final(out)@ == old(out)@ + four_digits(n as int),
{
    let m = n as u64;
    push_char(out, digit_to_char(m / 1000));
    push_char(out, digit_to_char((m / 100) % 10));
    push_char(out, digit_to_char((m / 10) % 10));
    push_char(out, digit_to_char(m % 10));
    assert(out@ =~= old(out)@ + four_digits(n as int));
}

/// The recovery code made of two numbers, as `format!("STACK-{:04}-{:04}")`
/// writes it.
pub fn format_recovery_code(a: u16, b: u16) -> (code: String)
    requires
        a <= 9999,
        b <= 9999,
    ensures
        code@ == recovery_code_text(a, b),
{
    let mut code = string_of("STACK-");
    push_four_digits(&mut code, a);
    push_char(&mut code, '-');
    push_four_digits(&mut code, b);
    assert(code@ =~= recovery_code_text(a, b));
    code
}

/// `rand::thread_rng().gen_range(0..=9999)`: a number from 0 to 9999.
#[verifier::external_body]
fn random_code_part() -> (n: u16)
    ensures
        n <= 9999,
{
    rand::thread_rng().gen_range(0..=9999u16)
}

/// A fresh random recovery code.
pub fn generate_recovery_code() -> (code: String)
    ensures
        exists|a: u16, b: u16| a <= 9999 && b <= 9999 && code@ == recovery_code_text(a, b),
{
    let a = random_code_part();
    let b = random_code_part();
    format_recovery_code(a, b)
}

/// Whether a text begins as a PHC string does: with `$`.
pub open spec fn is_phc_start(s: Seq<char>) -> bool {
    s.len() > 0 && s[0] == '$'
}

/// Whether `PasswordHash::new` accepts `s` as a PHC string.
pub uninterp spec fn phc_parses(s: Seq<char>) -> bool;

/// Whether `phc`, a PHC-format password hash, parses (`PasswordHash::new`)
/// and matches `password` under `Argon2::default().verify_password`.
pub uninterp spec fn argon2_verifies(password: Seq<u8>, phc: Seq<char>) -> bool;

/// `Argon2::default().hash_password(password, &salt)` with a fresh random
/// salt (`SaltString::generate(&mut OsRng)`), in PHC string form; `None`
/// where the crate reports an error. A hash it produces verifies with the
/// same password and is a PHC string that `PasswordHash::new` accepts,
/// beginning, as those do, with `$`; nothing else is stated of it, since the
/// salt is random.
#[verifier::external_body]
fn argon2_hash(password: &[u8]) -> (r: Option<String>)
    ensures
        r matches Some(h) ==> argon2_verifies(password@, h@) && phc_parses(h@) && is_phc_start(
            h@,
        ),
{
    let salt = argon2::password_hash::SaltString::generate(
        &mut argon2::password_hash::rand_core::OsRng,
    );
    match argon2::Argon2::default().hash_password(password, &salt) {
        Ok(h) => Some(h.to_string()),
        Err(_) => None,
    }
}

/// `PasswordHash::new(phc)` and then `Argon2::default().verify_password`:
/// whether both succeed. So a text that `PasswordHash::new` refuses never
/// verifies; among those are the empty text and every text whose first
/// `$`-separated field is not empty, that is, one that does not begin with `$`.
#[verifier::external_body]
fn argon2_check(password: &[u8], phc: &str) -> (ok: bool)
    ensures
        ok == argon2_verifies(password@, phc@),
        ok ==> phc_parses(phc@),
        !is_phc_start(phc@) ==> !ok,
{
    match argon2::PasswordHash::new(phc) {
        Ok(parsed) => argon2::Argon2::default().verify_password(password, &parsed).is_ok(),
        Err(_) => false,
    }
}

/// The Argon2 hash of a recovery code, or 500 where hashing fails. The hash
/// verifies with the code it was made of.
pub fn hash_recovery_code(code: &str) -> (r: Result<String, u16>)
    ensures
        match r {
            Ok(h) => argon2_verifies(vstd::utf8::encode_utf8(code@), h@) && phc_parses(h@)
                && is_phc_start(h@),
            Err(s) => s == errors::INTERNAL_SERVER_ERROR,
        },
{
    match argon2_hash(code.as_bytes()) {
        Some(h) => Ok(h),
        None => Err(errors::INTERNAL_SERVER_ERROR),
    }
}

/// Whether `code` is the recovery code that `hash` was made of. A text that
/// is not a PHC string (one `PasswordHash::new` refuses, among them every
/// text that does not begin with `$`) matches no code.
pub fn verify_recovery_code(code: &str, hash: &str) -> (ok: bool)
    ensures
        ok == argon2_verifies(vstd::utf8::encode_utf8(code@), hash@),
        !phc_parses(hash@) ==> !ok,
        !is_phc_start(hash@) ==> !ok,
{
    argon2_check(code.as_bytes(), hash)
}

/// The recovery code as typed, trimmed; 400 when nothing is left.
pub fn normalize_recovery_code(raw: &str) -> (r: Result<String, ApiError>)
    ensures
        match r {
            Ok(c) => c@ == text::trim(raw@) && c@.len() != 0,
            Err(e) => text::trim(raw@).len() == 0 && errors::is_error(
                e,
                errors::BAD_REQUEST,
                "recovery_code is required"@,
            ),
        },
{
    let code = trim_text(raw);
    if code.as_str().is_empty() {
        return Err(err(errors::BAD_REQUEST, "recovery_code is required"));
    }
    Ok(code)
}

/// Account `i` is the first whose hash the code verifies against.
pub open spec fn first_recovered(code: Seq<char>, hashes: Seq<String>, i: int) -> bool {
    &&& 0 <= i < hashes.len()
    &&& argon2_verifies(vstd::utf8::encode_utf8(code), hashes[i]@)
    &&& forall|j: int|
        0 <= j < i ==> !argon2_verifies(vstd::utf8::encode_utf8(code), #[trigger] hashes[j]@)
}

/// The first account, in the given order, whose recovery hash the code
/// verifies against; 401 when there is none.
pub fn match_recovery_code(code: &str, hashes: &Vec<String>) -> (r: Result<usize, ApiError>)
    ensures
        match r {
            Ok(i) => first_recovered(code@, hashes@, i as int),
            Err(e) => (forall|j: int|
                0 <= j < hashes@.len() ==> !argon2_verifies(
                    vstd::utf8::encode_utf8(code@),
                    #[trigger] hashes@[j]@,
                )) && errors::is_error(e, errors::UNAUTHORIZED, "invalid recovery code"@),
        },
{
    let mut i: usize = 0;
    while i < hashes.len()
        invariant
            i <= hashes.len(),
            forall|j: int|
                0 <= j < i ==> !argon2_verifies(
                    vstd::utf8::encode_utf8(code@),
                    #[trigger] hashes@[j]@,
                ),
        decreases hashes.len() - i,
    {
        if verify_recovery_code(code, hashes[i].as_str()) {
            return Ok(i);
        }
        i += 1;
    }
    Err(err(errors::UNAUTHORIZED, "invalid recovery code"))
}

/// Where the hash at `k` verifies with `code`, some account at or before `k`
/// is the first that does.
proof fn lemma_first_recovered_exists(code: Seq<char>, hashes: Seq<String>, k: int)
    requires
        0 <= k < hashes.len(),
        argon2_verifies(vstd::utf8::encode_utf8(code), hashes[k]@),
    ensures
        exists|i: int| i <= k && first_recovered(code, hashes, i),
    decreases k,
{
    let bytes = vstd::utf8::encode_utf8(code);
    if exists|j: int| 0 <= j < k && argon2_verifies(bytes, #[trigger] hashes[j]@) {
        let j = choose|j: int| 0 <= j < k && argon2_verifies(bytes, #[trigger] hashes[j]@);
        lemma_first_recovered_exists(code, hashes, j);
    } else {
        assert(first_recovered(code, hashes, k));
    }
}

/// A recovery code as it was handed out passes the recovery form unchanged
/// (trimming leaves it as it is, and it is not empty), and where the stored
/// hashes hold one made from it, at `k`, it recovers an account: the first
/// whose hash it verifies, at `k` or before.
pub proof fn lemma_issued_code_recovers(a: u16, b: u16, hashes: Seq<String>, k: int)
    requires
        a <= 9999,
        b <= 9999,
        0 <= k < hashes.len(),
        argon2_verifies(vstd::utf8::encode_utf8(recovery_code_text(a, b)), hashes[k]@),
    ensures
        text::trim(recovery_code_text(a, b)) == recovery_code_text(a, b),
        recovery_code_text(a, b).len() != 0,
        exists|i: int| i <= k && first_recovered(recovery_code_text(a, b), hashes, i),
{
    let code = recovery_code_text(a, b);
    reveal_strlit("STACK-");
    assert(code[0] == 'S');
    assert(code.last() == text::digit_char(b as int % 10));
    assert(text::trim_start(code) == code);
    assert(text::trim_end(code) == code);
    lemma_first_recovered_exists(code, hashes, k);
}

/// An account that the session names but that no longer exists is refused
/// with 401.
pub fn require_user<T>(user: Option<T>) -> (r: Result<T, ApiError>)
    ensures
        match r {
            Ok(u) => user == Some(u),
            Err(e) => user is None && errors::is_error(e, errors::UNAUTHORIZED, "user not found"@),
        },
{
    match user {
        Some(u) => Ok(u),
        None => Err(err(errors::UNAUTHORIZED, "user not found")),
    }
}

} // verus!
