//! Session tokens and the session cookie.
//!
//! A token is `UUID:TIMESTAMP.SIGNATURE`: the user's id in hyphenated form,
//! the issue time in seconds, and the lowercase hexadecimal HMAC-SHA256 of
//! the part before the dot under the server's secret. A token is accepted
//! for thirty days after it was issued, and not before.
use vstd::prelude::*;
use hmac::Mac;
use crate::text;
use crate::text::{
    chars_of, chars_start_with, parse_i64, push_char, push_chars, push_signed, split_chars,
    split_once_chars, string_from, string_of, sub_chars, trim_chars,
};
use crate::hexcode;
use crate::hexcode::{hex_decode_text, hex_encode_bytes};
use crate::ident;
use crate::ident::{parse_uuid_text, uuid_to_text};
use crate::errors;
use crate::errors::{err, ApiError};

verus! {

broadcast use vstd::string::group_string_axioms;

/// How long a token stays valid, in seconds (thirty days).
pub const SESSION_MAX_AGE_SECS: i64 = 2592000;

/// The HMAC-SHA256 tag of `msg` under `key`.
pub uninterp spec fn hmac_sha256(key: Seq<u8>, msg: Seq<u8>) -> Seq<u8>;

/// `Hmac::<Sha256>::new_from_slice(key)` fed `msg` and finalized: the tag,
/// 32 bytes long (SHA-256's output size). The constructor accepts keys of
/// every length, so the `expect` never fires.
#[verifier::external_body]
pub(crate) fn hmac_tag(key: &[u8], msg: &[u8]) -> (tag: Vec<u8>)
    ensures
        tag@ == hmac_sha256(key@, msg@),
        tag@.len() == 32,
{
    let mut mac = hmac::Hmac::<sha2::Sha256>::new_from_slice(key).expect(
        "HMAC key length is valid",
    );
    mac.update(msg);
    mac.finalize().into_bytes().to_vec()
}

/// `Hmac::<Sha256>::verify_slice`: whether `tag` is exactly the tag of `msg`
/// under `key` (the crate rejects a tag of another length and compares the
/// rest in constant time).
#[verifier::external_body]
pub(crate) fn hmac_tag_matches(key: &[u8], msg: &[u8], tag: &[u8]) -> (ok: bool)
    ensures
        ok == (tag@ == hmac_sha256(key@, msg@)),
{
    let mut mac = hmac::Hmac::<sha2::Sha256>::new_from_slice(key).expect(
        "HMAC key length is valid",
    );
    mac.update(msg);
    mac.verify_slice(tag).is_ok()
}

/// `Utc::now().timestamp()`: the current time in seconds since the Unix
/// epoch. Nothing is stated of the value: it is the clock's.
#[verifier::external_body]
pub(crate) fn unix_now() -> i64 {
    chrono::Utc::now().timestamp()
}

/// The signed part of a token issued to `user` at time `at`.
pub open spec fn token_payload(user: u128, at: i64) -> Seq<char> {
    ident::uuid_text(user) + seq![':'] + text::signed_decimal(at as int)
}

/// The signature of a payload: hexadecimal HMAC of its UTF-8 bytes.
pub open spec fn token_signature(key: Seq<u8>, payload: Seq<char>) -> Seq<char> {
    hexcode::hex_encode(hmac_sha256(key, vstd::utf8::encode_utf8(payload)))
}

/// The token issued to `user` at time `at` under `key`.
pub open spec fn token_text(user: u128, key: Seq<u8>, at: i64) -> Seq<char> {
    let p = token_payload(user, at);
    p + seq!['.'] + token_signature(key, p)
}

/// The user a token stands for at time `now`, or `None` when it is
/// malformed, carries a wrong signature, is dated in the future, or is older
/// than the maximum age.
pub open spec fn token_subject(token: Seq<char>, key: Seq<u8>, now: i64) -> Option<u128> {
    match text::split_once(token, '.') {
        None => None,
        Some((payload, sig)) => match hexcode::hex_decode(vstd::utf8::encode_utf8(sig)) {
            None => None,
            Some(tag) => if tag != hmac_sha256(key, vstd::utf8::encode_utf8(payload)) {
                None
            } else {
                match text::split_once(payload, ':') {
                    None => None,
                    Some((id, ts)) => match text::parse_i64_text(ts) {
                        None => None,
                        Some(t) => if t > now {
                            None
                        } else if now - t > SESSION_MAX_AGE_SECS {
                            None
                        } else {
                            ident::uuid_parse(id)
                        },
                    },
                }
            },
        },
    }
}

/// Whether a token issued at `at` is accepted at `now`.
pub open spec fn within_session_window(at: i64, now: i64) -> bool {
    at <= now && now - at <= SESSION_MAX_AGE_SECS
}

/// A character that a token is made of.
pub open spec fn is_token_char(c: char) -> bool {
    ident::is_uuid_char(c) || text::is_digit(c) || c == ':' || c == '.'
}

proof fn lemma_token_chars(user: u128, key: Seq<u8>, at: i64)
    ensures
        forall|i: int|
            0 <= i < token_payload(user, at).len() ==> {
                let c = #[trigger] token_payload(user, at)[i];
                c != '.' && is_token_char(c)
            },
        forall|i: int|
            0 <= i < ident::uuid_text(user).len() ==> #[trigger] ident::uuid_text(user)[i]
                != ':',
        forall|i: int|
            0 <= i < token_text(user, key, at).len() ==> is_token_char(
                #[trigger] token_text(user, key, at)[i],
            ),
{
    let id = ident::uuid_text(user);
    let ts = text::signed_decimal(at as int);
    let p = token_payload(user, at);
    let sig = token_signature(key, p);
    let t = token_text(user, key, at);
    ident::lemma_uuid_text_chars(user);
    text::lemma_signed_decimal_chars(at as int);
    hexcode::lemma_hex_encode_chars(hmac_sha256(key, vstd::utf8::encode_utf8(p)));
    assert forall|i: int| 0 <= i < id.len() implies #[trigger] id[i] != ':' by {
        assert(ident::is_uuid_char(id[i]));
    }
    assert forall|i: int| 0 <= i < p.len() implies {
        let c = #[trigger] p[i];
        c != '.' && is_token_char(c)
    } by {
        if i < id.len() {
            assert(p[i] == id[i]);
            assert(ident::is_uuid_char(id[i]));
        } else if i == id.len() {
        } else {
            assert(p[i] == ts[i - id.len() - 1]);
        }
    }
    assert forall|i: int| 0 <= i < t.len() implies is_token_char(#[trigger] t[i]) by {
        if i < p.len() {
            assert(t[i] == p[i]);
        } else if i == p.len() {
        } else {
            assert(t[i] == sig[i - p.len() - 1]);
        }
    }
}

/// A token issued at `at` names its user exactly inside the session window.
pub proof fn lemma_token_round_trip(user: u128, key: Seq<u8>, at: i64, later: i64)
    requires
        ident::uuid_parse(ident::uuid_text(user)) == Some(user),
    ensures
        token_subject(token_text(user, key, at), key, later) == (if within_session_window(
            at,
            later,
        ) {
            Some(user)
        } else {
            None
        }),
{
    let id = ident::uuid_text(user);
    let ts = text::signed_decimal(at as int);
    let p = token_payload(user, at);
    let tag = hmac_sha256(key, vstd::utf8::encode_utf8(p));
    let sig = token_signature(key, p);
    lemma_token_chars(user, key, at);
    assert forall|j: int| 0 <= j < p.len() implies p[j] != '.' by {
        let c = p[j];
    }
    text::lemma_split_once_concat(p, '.', sig);
    hexcode::lemma_hex_round_trip(tag);
    text::lemma_split_once_concat(id, ':', ts);
    text::lemma_parse_signed_decimal(at);
}

/// Issues the token for `user_id` at time `now`.
pub fn sign_token_at(user_id: u128, secret: &[u8], now: i64) -> (token: String)
    ensures
        token@ == token_text(user_id, secret@, now),
        token_signature(secret@, token_payload(user_id, now)).len() == 64,
        forall|i: int| 0 <= i < token@.len() ==> is_token_char(#[trigger] token@[i]),
        forall|later: i64|
            #[trigger] token_subject(token@, secret@, later) == (if within_session_window(
                now,
                later,
            ) {
                Some(user_id)
            } else {
                None
            }),
{
    let mut payload = uuid_to_text(user_id);
    push_char(&mut payload, ':');
    push_signed(&mut payload, now);
    assert(payload@ =~= token_payload(user_id, now));
    let tag = hmac_tag(secret, payload.as_str().as_bytes());
    let sig = hex_encode_bytes(tag.as_slice());
    let mut token = payload;
    push_char(&mut token, '.');
    push_chars(&mut token, &chars_of(sig.as_str()));
    assert(token@ =~= token_text(user_id, secret@, now));
    proof {
        hexcode::lemma_hex_encode_shape(tag@);
        lemma_token_chars(user_id, secret@, now);
        assert forall|later: i64|
            #[trigger] token_subject(token@, secret@, later) == (if within_session_window(
                now,
                later,
            ) {
                Some(user_id)
            } else {
                None
            }) by {
            lemma_token_round_trip(user_id, secret@, now, later);
        }
    }
    token
}

/// Issues a token for `user_id`, dated by the clock.
pub fn sign_token(user_id: u128, secret: &[u8]) -> (token: String)
    ensures
        exists|at: i64|
            token@ == token_text(user_id, secret@, at) && token_signature(
                secret@,
                token_payload(user_id, at),
            ).len() == 64 && forall|later: i64|
                #[trigger] token_subject(token@, secret@, later) == (if within_session_window(
                    at,
                    later,
                ) {
                    Some(user_id)
                } else {
                    None
                }),
{
    let now = unix_now();
    sign_token_at(user_id, secret, now)
}

/// The user a token stands for at time `now`.
pub fn verify_token_at(token: &str, secret: &[u8], now: i64) -> (r: Option<u128>)
    ensures
        r == token_subject(token@, secret@, now),
{
    let chars = chars_of(token);
    let (payload, sig) = match split_once_chars(&chars, '.') {
        Some(parts) => parts,
        None => return None,
    };
    let payload_text = string_from(&payload);
    let sig_text = string_from(&sig);
    let tag = match hex_decode_text(sig_text.as_str()) {
        Some(t) => t,
        None => return None,
    };
    if !hmac_tag_matches(secret, payload_text.as_str().as_bytes(), tag.as_slice()) {
        return None;
    }
    let (id, ts) = match split_once_chars(&payload, ':') {
        Some(parts) => parts,
        None => return None,
    };
    let t = match parse_i64(&ts) {
        Some(t) => t,
        None => return None,
    };
    if t > now {
        return None;
    }
    if (now as i128) - (t as i128) > (SESSION_MAX_AGE_SECS as i128) {
        return None;
    }
    parse_uuid_text(string_from(&id).as_str())
}

/// The user a token stands for now, by the clock.
pub fn verify_token(token: &str, secret: &[u8]) -> (r: Option<u128>)
    ensures
        exists|now: i64| r == token_subject(token@, secret@, now),
{
    let now = unix_now();
    verify_token_at(token, secret, now)
}

// ---------------------------------------------------------------------------
// The cookie
// ---------------------------------------------------------------------------

/// The value of the `Set-Cookie` header that hands a token to the browser.
pub open spec fn set_cookie_text(token: Seq<char>) -> Seq<char> {
    "stackpedia_session="@ + token + "; Path=/; HttpOnly; SameSite=Lax"@
}

/// The `Set-Cookie` header value for a token.
pub fn set_session_cookie(token: &str) -> (header: String)
    ensures
        header@ == set_cookie_text(token@),
{
    let mut header = string_of("stackpedia_session=");
    push_chars(&mut header, &chars_of(token));
    push_chars(&mut header, &chars_of("; Path=/; HttpOnly; SameSite=Lax"));
    header
}

/// The session cookie's value among the `;`-separated cookies from piece `i`
/// on: the first piece that, trimmed, starts with `stackpedia_session=`.
pub open spec fn cookie_value_from(pieces: Seq<Seq<char>>, i: int) -> Option<Seq<char>>
    decreases pieces.len() - i,
{
    if i < 0 || i >= pieces.len() {
        None
    } else {
        let p = text::trim(pieces[i]);
        if "stackpedia_session="@.is_prefix_of(p) {
            Some(p.skip("stackpedia_session="@.len() as int))
        } else {
            cookie_value_from(pieces, i + 1)
        }
    }
}

/// The session cookie's value in a `Cookie` header.
pub open spec fn session_cookie_value(header: Seq<char>) -> Option<Seq<char>> {
    cookie_value_from(text::split(header, ';'), 0)
}

/// The session cookie's value in a `Cookie` header.
pub fn session_token_in(header: &str) -> (r: Option<String>)
    ensures
        match r {
            Some(v) => session_cookie_value(header@) == Some(v@),
            None => session_cookie_value(header@) is None,
        },
{
    let pieces = split_chars(&chars_of(header), ';');
    let prefix = chars_of("stackpedia_session=");
    let ghost all = text::split(header@, ';');
    let mut i: usize = 0;
    while i < pieces.len()
        invariant
            i <= pieces.len(),
            text::pieces_view(pieces@) == all,
            all == text::split(header@, ';'),
            prefix@ == "stackpedia_session="@,
            cookie_value_from(all, 0) == cookie_value_from(all, i as int),
        decreases pieces.len() - i,
    {
        assert(all[i as int] == pieces@[i as int]@);
        let p = trim_chars(&pieces[i]);
        if chars_start_with(&p, &prefix) {
            let v = sub_chars(&p, prefix.len(), p.len());
            assert(v@ =~= p@.skip(prefix@.len() as int));
            assert(p@ == text::trim(all[i as int]));
            assert(cookie_value_from(all, i as int) == Some(v@));
            return Some(string_from(&v));
        }
        i += 1;
    }
    None
}

/// The user named by the session cookie in a `Cookie` header, at time `now`.
pub open spec fn cookie_subject(header: Seq<char>, key: Seq<u8>, now: i64) -> Option<u128> {
    match session_cookie_value(header) {
        Some(v) => token_subject(v, key, now),
        None => None,
    }
}

/// The user named by the session cookie in a `Cookie` header, at time `now`.
pub fn user_from_cookie_at(header: &str, secret: &[u8], now: i64) -> (r: Option<u128>)
    ensures
        r == cookie_subject(header@, secret@, now),
{
    match session_token_in(header) {
        Some(v) => verify_token_at(v.as_str(), secret, now),
        None => None,
    }
}

/// The user named by the session cookie in a `Cookie` header, by the clock.
pub fn extract_user_id(header: &str, secret: &[u8]) -> (r: Option<u128>)
    ensures
        exists|now: i64| r == #[trigger] cookie_subject(header@, secret@, now),
{
    let r = match session_token_in(header) {
        Some(v) => verify_token(v.as_str(), secret),
        None => None,
    };
    proof {
        if session_cookie_value(header@) is None {
            assert(r == cookie_subject(header@, secret@, 0));
        } else {
            let v = session_cookie_value(header@)->0;
            let now = choose|now: i64| r == token_subject(v, secret@, now);
            assert(r == cookie_subject(header@, secret@, now));
        }
    }
    r
}

/// The signed-in user of a request.
pub struct Session {
    pub user_id: u128,
}

/// The user named by a request's `Cookie` header, if it has one.
pub open spec fn request_subject(cookie_header: Option<&str>, key: Seq<u8>, now: i64) -> Option<
    u128,
> {
    match cookie_header {
        Some(h) => cookie_subject(h@, key, now),
        None => None,
    }
}

/// `r` is the session of `subject`, or 401 when there is none.
pub open spec fn session_answer(r: Result<Session, ApiError>, subject: Option<u128>) -> bool {
    match subject {
        Some(u) => r matches Ok(s) && s.user_id == u,
        None => r matches Err(e) && errors::is_error(e, errors::UNAUTHORIZED, "not authenticated"@),
    }
}

/// The session of a request with the given `Cookie` header (if any) at
/// time `now`; 401 when the header names no valid session.
pub fn authenticate_at(cookie_header: Option<&str>, secret: &[u8], now: i64) -> (r: Result<
    Session,
    ApiError,
>)
    ensures
        session_answer(r, request_subject(cookie_header, secret@, now)),
{
    let found = match cookie_header {
        Some(h) => user_from_cookie_at(h, secret, now),
        None => None,
    };
    match found {
        Some(user_id) => Ok(Session { user_id }),
        None => Err(err(errors::UNAUTHORIZED, "not authenticated")),
    }
}

/// The session of a request with the given `Cookie` header, by the clock.
pub fn authenticate(cookie_header: Option<&str>, secret: &[u8]) -> (r: Result<Session, ApiError>)
    ensures
        exists|now: i64| session_answer(r, #[trigger] request_subject(cookie_header, secret@, now)),
{
    let found = match cookie_header {
        Some(h) => extract_user_id(h, secret),
        None => None,
    };
    let r = match found {
        Some(user_id) => Ok(Session { user_id }),
        None => Err(err(errors::UNAUTHORIZED, "not authenticated")),
    };
    proof {
        if cookie_header is None {
            assert(session_answer(r, request_subject(cookie_header, secret@, 0)));
        } else {
            let now = choose|now: i64| found == cookie_subject(cookie_header->0@, secret@, now);
            assert(session_answer(r, request_subject(cookie_header, secret@, now)));
        }
    }
    r
}

/// The `Set-Cookie` header value that starts a session for `user_id` at `now`.
pub fn session_cookie_at(user_id: u128, secret: &[u8], now: i64) -> (header: String)
    ensures
        header@ == set_cookie_text(token_text(user_id, secret@, now)),
        forall|later: i64|
            #[trigger] cookie_subject(header@, secret@, later) == (if within_session_window(
                now,
                later,
            ) {
                Some(user_id)
            } else {
                None
            }),
{
    let token = sign_token_at(user_id, secret, now);
    proof {
        assert forall|i: int| 0 <= i < token@.len() implies token@[i] != ';' by {
            assert(is_token_char(token@[i]));
        }
        if token@.len() > 0 {
            assert(is_token_char(token@.last()));
        }
        lemma_set_cookie_read_back(token@);
    }
    set_session_cookie(token.as_str())
}

/// The `Set-Cookie` header value that starts a session for `user_id` now.
pub fn session_cookie(user_id: u128, secret: &[u8]) -> (header: String)
    ensures
        exists|at: i64|
            header@ == set_cookie_text(token_text(user_id, secret@, at)) && forall|later: i64|
                #[trigger] cookie_subject(header@, secret@, later) == (if within_session_window(
                    at,
                    later,
                ) {
                    Some(user_id)
                } else {
                    None
                }),
{
    let token = sign_token(user_id, secret);
    let ghost at = choose|at: i64|
        token@ == token_text(user_id, secret@, at) && forall|later: i64|
            #[trigger] token_subject(token@, secret@, later) == (if within_session_window(
                at,
                later,
            ) {
                Some(user_id)
            } else {
                None
            });
    proof {
        lemma_token_chars(user_id, secret@, at);
        assert forall|i: int| 0 <= i < token@.len() implies token@[i] != ';' by {
            assert(is_token_char(token@[i]));
        }
        if token@.len() > 0 {
            assert(is_token_char(token@.last()));
        }
        lemma_set_cookie_read_back(token@);
    }
    set_session_cookie(token.as_str())
}

// ---------------------------------------------------------------------------
// Laws of the cookie
// ---------------------------------------------------------------------------

proof fn lemma_cookie_first_piece(pieces: Seq<Seq<char>>, token: Seq<char>)
    requires
        pieces.len() >= 1,
        pieces[0] == "stackpedia_session="@ + token,
        token.len() == 0 || !text::is_white(token.last()),
    ensures
        cookie_value_from(pieces, 0) == Some(token),
{
    reveal_strlit("stackpedia_session=");
    let p = pieces[0];
    let prefix = "stackpedia_session="@;
    assert(p[0] == 's');
    assert(text::trim_start(p) == p);
    if token.len() > 0 {
        assert(p.last() == token.last());
    } else {
        assert(p.last() == '=');
    }
    assert(text::trim_end(p) == p);
    assert(prefix.is_prefix_of(p)) by {
        assert(p.subrange(0, prefix.len() as int) =~= prefix);
    }
    assert(p.skip(prefix.len() as int) =~= token);
}

/// The session cookie set by `Set-Cookie` is read back from that header's
/// value, and from a `Cookie` header that holds it alone, for every token
/// without `;` and without trailing whitespace.
pub proof fn lemma_set_cookie_read_back(token: Seq<char>)
    requires
        forall|j: int| 0 <= j < token.len() ==> token[j] != ';',
        token.len() == 0 || !text::is_white(token.last()),
    ensures
        session_cookie_value(set_cookie_text(token)) == Some(token),
        session_cookie_value("stackpedia_session="@ + token) == Some(token),
{
    reveal_strlit("stackpedia_session=");
    reveal_strlit("; Path=/; HttpOnly; SameSite=Lax");
    let a = "stackpedia_session="@ + token;
    assert forall|j: int| 0 <= j < a.len() implies a[j] != ';' by {
        if j >= 19 {
            assert(a[j] == token[j - 19]);
        }
    }
    let rest = "; Path=/; HttpOnly; SameSite=Lax"@.drop_first();
    assert(set_cookie_text(token) =~= a + seq![';'] + rest);
    text::lemma_split_after(a, ';', rest);
    lemma_cookie_first_piece(text::split(set_cookie_text(token), ';'), token);
    text::lemma_split_no_sep(a, ';');
    lemma_cookie_first_piece(text::split(a, ';'), token);
}

} // verus!
