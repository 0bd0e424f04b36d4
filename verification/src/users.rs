//! User profiles.
use vstd::prelude::*;
use crate::text;
use crate::text::{text_len, text_starts_with};
use crate::errors;
use crate::errors::{err, ApiError};

verus! {

broadcast use vstd::string::group_string_axioms;

/// What is wrong with a sponsor URL, if anything: at most 200 bytes, and a
/// non-empty one must start with `https://`.
pub open spec fn sponsor_url_issue(url: Seq<char>) -> Option<Seq<char>> {
    if text::byte_len(url) > 200 {
        Some("sponsor_url must be max 200 chars"@)
    } else if url.len() != 0 && !"https://"@.is_prefix_of(url) {
        Some("sponsor_url must start with https://"@)
    } else {
        None
    }
}

/// The sponsor URL to store: the URL when one is given and not empty, else
/// none; 400 when the URL breaks a rule.
pub fn normalize_sponsor_url(url: Option<String>) -> (r: Result<Option<String>, ApiError>)
    ensures
        match url {
            Some(u) => match sponsor_url_issue(u@) {
                Some(m) => r matches Err(e) && errors::is_error(e, errors::BAD_REQUEST, m),
                None => r matches Ok(stored) && if u@.len() == 0 {
                    stored is None
                } else {
                    stored matches Some(s) && s@ == u@
                },
            },
            None => r matches Ok(stored) && stored is None,
        },
{
    match url {
        Some(u) => {
            if text_len(&u) > 200 {
                return Err(err(errors::BAD_REQUEST, "sponsor_url must be max 200 chars"));
            }
            if !u.as_str().is_empty() && !text_starts_with(u.as_str(), "https://") {
                return Err(err(errors::BAD_REQUEST, "sponsor_url must start with https://"));
            }
            if u.as_str().is_empty() {
                Ok(None)
            } else {
                Ok(Some(u))
            }
        },
        None => Ok(None),
    }
}

/// The user a profile is asked for: the user, or 404 when there is none.
pub fn require_profile_user<T>(user: Option<T>) -> (r: Result<T, ApiError>)
    ensures
        match r {
            Ok(u) => user == Some(u),
            Err(e) => user is None && errors::is_error(e, errors::NOT_FOUND, "user not found"@),
        },
{
    match user {
        Some(u) => Ok(u),
        None => Err(err(errors::NOT_FOUND, "user not found")),
    }
}

} // verus!
