//! Identifiers: a UUID is held as its 128-bit value, and rendered and parsed
//! through the `uuid` crate.
use vstd::prelude::*;
use crate::hexcode;

verus! {

/// Hexadecimal digit `i` (from the left, `0 <= i < 32`) of the 128-bit value.
pub open spec fn uuid_nibble(u: u128, i: int) -> int {
    ((u as int) / vstd::arithmetic::power::pow(16, (31 - i) as nat)) % 16
}

/// The 32 lowercase hexadecimal digits of the value, most significant first.
pub open spec fn uuid_hex(u: u128) -> Seq<char> {
    Seq::new(32, |i: int| hexcode::hex_digit(uuid_nibble(u, i)))
}

/// The hyphenated lowercase form `xxxxxxxx-xxxx-xxxx-xxxx-xxxxxxxxxxxx`.
pub open spec fn uuid_text(u: u128) -> Seq<char> {
    let h = uuid_hex(u);
    h.subrange(0, 8) + seq!['-'] + h.subrange(8, 12) + seq!['-'] + h.subrange(12, 16) + seq!['-']
        + h.subrange(16, 20) + seq!['-'] + h.subrange(20, 32)
}

/// What `Uuid::parse_str` makes of a text: the value, or `None` where it
/// reports an error.
pub uninterp spec fn uuid_parse(s: Seq<char>) -> Option<u128>;

/// `Uuid::from_u128(u).to_string()`: the hyphenated lowercase form, which
/// `Uuid::parse_str` reads back as the same value.
#[verifier::external_body]
pub(crate) fn uuid_to_text(u: u128) -> (s: String)
    ensures
        s@ == uuid_text(u),
        uuid_parse(s@) == Some(u),
{
    uuid::Uuid::from_u128(u).to_string()
}

/// `Uuid::parse_str(s)`, as a 128-bit value; `None` where it reports an error.
#[verifier::external_body]
pub(crate) fn parse_uuid_text(s: &str) -> (r: Option<u128>)
    ensures
        r == uuid_parse(s@),
{
    match uuid::Uuid::parse_str(s) {
        Ok(id) => Some(id.as_u128()),
        Err(_) => None,
    }
}

/// A character of the hyphenated form.
pub open spec fn is_uuid_char(c: char) -> bool {
    hexcode::is_hex_lower(c) || c == '-'
}

pub proof fn lemma_uuid_text_chars(u: u128)
    ensures
        uuid_text(u).len() == 36,
        forall|i: int| 0 <= i < uuid_text(u).len() ==> is_uuid_char(#[trigger] uuid_text(u)[i]),
{
    let h = uuid_hex(u);
    assert forall|i: int| 0 <= i < 32 implies hexcode::is_hex_lower(#[trigger] h[i]) by {
        hexcode::lemma_hex_digit(uuid_nibble(u, i));
    }
    let t = uuid_text(u);
    assert forall|i: int| 0 <= i < t.len() implies is_uuid_char(#[trigger] t[i]) by {
        if i < 8 {
            assert(t[i] == h[i]);
        } else if i == 8 {
        } else if i < 13 {
            assert(t[i] == h[i - 1]);
        } else if i == 13 {
        } else if i < 18 {
            assert(t[i] == h[i - 2]);
        } else if i == 18 {
        } else if i < 23 {
            assert(t[i] == h[i - 3]);
        } else if i == 23 {
        } else {
            assert(t[i] == h[i - 4]);
        }
    }
}

} // verus!
