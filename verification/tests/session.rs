use stackpedia::session::{
    authenticate, authenticate_at, extract_user_id, session_cookie, session_cookie_at,
    session_token_in, set_session_cookie, sign_token, sign_token_at, user_from_cookie_at,
    verify_token, verify_token_at, SESSION_MAX_AGE_SECS,
};

const USER: u128 = 0x550e8400_e29b_41d4_a716_446655440000;
const SECRET: &[u8] = b"secret";
const AT: i64 = 1_700_000_000;
const EXPECTED_TOKEN: &str = "550e8400-e29b-41d4-a716-446655440000:1700000000.e4cce6f90a4de802af867393edb02678dca6e588a5badee4fb6d9cf6b8207412";

#[test]
fn signed_token_has_the_documented_form() {
    let token = sign_token_at(USER, SECRET, AT);
    assert_eq!(token, EXPECTED_TOKEN);
}

#[test]
fn negative_timestamps_are_written_with_a_sign() {
    let token = sign_token_at(USER, SECRET, -5);
    assert_eq!(
        token,
        "550e8400-e29b-41d4-a716-446655440000:-5.f884deefdc000753bd53683549315a56cf4a042d9a09703a7564a0aa8f038ff1"
    );
}

#[test]
fn token_verifies_inside_its_window() {
    let token = sign_token_at(USER, SECRET, AT);
    assert_eq!(verify_token_at(&token, SECRET, AT), Some(USER));
    assert_eq!(verify_token_at(&token, SECRET, AT + 1), Some(USER));
    assert_eq!(verify_token_at(&token, SECRET, AT + SESSION_MAX_AGE_SECS), Some(USER));
}

#[test]
fn expired_token_is_rejected() {
    let token = sign_token_at(USER, SECRET, AT);
    assert_eq!(verify_token_at(&token, SECRET, AT + SESSION_MAX_AGE_SECS + 1), None);
}

#[test]
fn future_token_is_rejected() {
    let token = sign_token_at(USER, SECRET, AT);
    assert_eq!(verify_token_at(&token, SECRET, AT - 1), None);
}

#[test]
fn token_under_another_secret_is_rejected() {
    let token = sign_token_at(USER, SECRET, AT);
    assert_eq!(verify_token_at(&token, b"other", AT), None);
}

#[test]
fn tampered_payload_is_rejected() {
    let tampered = EXPECTED_TOKEN.replacen("1700000000", "1700000001", 1);
    assert_eq!(verify_token_at(&tampered, SECRET, AT + 10), None);
    let other_user = EXPECTED_TOKEN.replacen("550e8400", "550e8401", 1);
    assert_eq!(verify_token_at(&other_user, SECRET, AT + 10), None);
}

#[test]
fn malformed_tokens_are_rejected() {
    assert_eq!(verify_token_at("", SECRET, AT), None);
    assert_eq!(verify_token_at("no-dot-here", SECRET, AT), None);
    assert_eq!(verify_token_at("abc.zz", SECRET, AT), None);
    assert_eq!(verify_token_at("abc.abc", SECRET, AT), None);
}

#[test]
fn token_without_timestamp_is_rejected() {
    // A correctly signed payload without the `:TIMESTAMP` part (the old form).
    let token = "550e8400-e29b-41d4-a716-446655440000.f9302f7aa88ee175da96bbf004ff73b6540f49df240a27433d01751332d53f28";
    assert_eq!(verify_token_at(token, SECRET, AT), None);
}

#[test]
fn signed_token_with_bad_id_is_rejected() {
    let token = "not-a-uuid:1700000000.ea1e1cde02e91ca09e76ea1c10dd1bfe577fc647f006c7e94a0906c4b27b83e5";
    assert_eq!(verify_token_at(token, SECRET, AT), None);
}

#[test]
fn uppercase_signature_is_accepted() {
    let upper = format!(
        "550e8400-e29b-41d4-a716-446655440000:1700000000.{}",
        "e4cce6f90a4de802af867393edb02678dca6e588a5badee4fb6d9cf6b8207412".to_uppercase()
    );
    assert_eq!(verify_token_at(&upper, SECRET, AT), Some(USER));
}

#[test]
fn token_signed_now_verifies_now() {
    let token = sign_token(USER, SECRET);
    assert_eq!(verify_token(&token, SECRET), Some(USER));
}

#[test]
fn set_cookie_header_value() {
    assert_eq!(
        set_session_cookie("abc"),
        "stackpedia_session=abc; Path=/; HttpOnly; SameSite=Lax"
    );
}

#[test]
fn session_cookie_is_found_among_others() {
    assert_eq!(
        session_token_in("theme=dark;  stackpedia_session=tok123 ; lang=en"),
        Some("tok123".to_string())
    );
    assert_eq!(session_token_in("theme=dark"), None);
    assert_eq!(session_token_in(""), None);
    assert_eq!(
        session_token_in("stackpedia_session=first; stackpedia_session=second"),
        Some("first".to_string())
    );
}

#[test]
fn cookie_from_set_cookie_reads_back() {
    let token = sign_token_at(USER, SECRET, AT);
    let header = set_session_cookie(&token);
    assert_eq!(session_token_in(&header), Some(token.clone()));
    assert_eq!(user_from_cookie_at(&header, SECRET, AT + 100), Some(USER));
}

#[test]
fn session_cookie_at_names_its_user() {
    let header = session_cookie_at(USER, SECRET, AT);
    assert_eq!(header, format!("stackpedia_session={}; Path=/; HttpOnly; SameSite=Lax", EXPECTED_TOKEN));
    let cookie = format!("stackpedia_session={}", EXPECTED_TOKEN);
    assert_eq!(user_from_cookie_at(&cookie, SECRET, AT + 5), Some(USER));
    assert_eq!(user_from_cookie_at(&cookie, SECRET, AT + SESSION_MAX_AGE_SECS + 5), None);
}

#[test]
fn session_cookie_now_names_its_user() {
    let header = session_cookie(USER, SECRET);
    assert_eq!(extract_user_id(&header, SECRET), Some(USER));
}

#[test]
fn authentication_answers() {
    let cookie = format!("stackpedia_session={}", EXPECTED_TOKEN);
    let ok = authenticate_at(Some(&cookie), SECRET, AT + 1).ok().unwrap();
    assert_eq!(ok.user_id, USER);
    let missing = authenticate_at(None, SECRET, AT).err().unwrap();
    assert_eq!(missing.status, 401);
    assert_eq!(missing.body.error, "not authenticated");
    let expired = authenticate_at(Some(&cookie), SECRET, AT + SESSION_MAX_AGE_SECS + 1).err().unwrap();
    assert_eq!(expired.status, 401);
    let now_cookie = format!("stackpedia_session={}", sign_token(USER, SECRET));
    assert_eq!(authenticate(Some(&now_cookie), SECRET).ok().unwrap().user_id, USER);
    assert!(authenticate(Some("x=y"), SECRET).is_err());
}

#[test]
fn token_signature_is_sixty_four_hex_digits() {
    let token = sign_token_at(USER, SECRET, AT);
    let sig = token.rsplit('.').next().unwrap();
    assert_eq!(sig.len(), 64);
    assert!(sig.chars().all(|c| c.is_ascii_hexdigit() && !c.is_ascii_uppercase()));
    let other = sign_token_at(7, b"a much longer key than the block size of sha-256 ........................", 0);
    assert_eq!(other.rsplit('.').next().unwrap().len(), 64);
}
