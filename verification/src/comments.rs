//! Comments on stacks.
use vstd::prelude::*;
use crate::text;
use crate::text::{text_len, trim_text};
use crate::errors;
use crate::errors::{err, ApiError};

verus! {

broadcast use vstd::string::group_string_axioms;

/// A comment, once trimmed, must be 1 to 500 bytes long.
pub open spec fn comment_ok(trimmed: Seq<char>) -> bool {
    trimmed.len() != 0 && text::byte_len(trimmed) <= 500
}

/// The comment to store for what the user wrote: the trimmed text, or 400
/// when it is not 1 to 500 bytes long.
pub fn normalize_comment(raw: &str) -> (r: Result<String, ApiError>)
    ensures
        match r {
            Ok(c) => c@ == text::trim(raw@) && comment_ok(c@),
            Err(e) => !comment_ok(text::trim(raw@)) && errors::is_error(
                e,
                errors::BAD_REQUEST,
                "content must be 1-500 chars"@,
            ),
        },
{
    let content = trim_text(raw);
    if content.as_str().is_empty() || text_len(&content) > 500 {
        return Err(err(errors::BAD_REQUEST, "content must be 1-500 chars"));
    }
    Ok(content)
}

} // verus!
