//! Lowercase hexadecimal encoding of bytes, through the `hex` crate.
use vstd::prelude::*;
use crate::text;

verus! {

/// The lowercase hexadecimal digit for `d` (`0 <= d < 16`).
pub open spec fn hex_digit(d: int) -> char {
    if d < 10 {
        text::digit_char(d)
    } else if d == 10 {
        'a'
    } else if d == 11 {
        'b'
    } else if d == 12 {
        'c'
    } else if d == 13 {
        'd'
    } else if d == 14 {
        'e'
    } else {
        'f'
    }
}

/// A lowercase hexadecimal digit.
pub open spec fn is_hex_lower(c: char) -> bool {
    text::is_digit(c) || (97 <= (c as u32) && (c as u32) <= 102)
}

/// Two lowercase hexadecimal digits per byte, high nibble first.
pub open spec fn hex_encode(b: Seq<u8>) -> Seq<char>
    decreases b.len(),
{
    if b.len() == 0 {
        Seq::<char>::empty()
    } else {
        hex_encode(b.drop_last()) + seq![
            hex_digit(b.last() as int / 16),
            hex_digit(b.last() as int % 16),
        ]
    }
}

/// The value of one hexadecimal digit byte, either case.
pub open spec fn hex_value(c: u8) -> Option<int> {
    if 48 <= c <= 57 {
        Some(c - 48)
    } else if 97 <= c <= 102 {
        Some(c - 87)
    } else if 65 <= c <= 70 {
        Some(c - 55)
    } else {
        None
    }
}

/// Hexadecimal text (as bytes) decoded into bytes: `None` for an odd length
/// or a byte that is not a hexadecimal digit.
pub open spec fn hex_decode(b: Seq<u8>) -> Option<Seq<u8>> {
    if b.len() % 2 != 0 {
        None
    } else if forall|i: int| 0 <= i < b.len() ==> (#[trigger] hex_value(b[i])) is Some {
        Some(
            Seq::new(
                (b.len() / 2) as nat,
                |i: int| (hex_value(b[2 * i])->0 * 16 + hex_value(b[2 * i + 1])->0) as u8,
            ),
        )
    } else {
        None
    }
}

/// `hex::encode`: lowercase hexadecimal text of the bytes.
#[verifier::external_body]
pub(crate) fn hex_encode_bytes(b: &[u8]) -> (s: String)
    ensures
        s@ == hex_encode(b@),
{
    hex::encode(b)
}

/// `hex::decode` on the bytes of a string: `None` where the crate reports an
/// error (odd length or a non-hexadecimal byte).
#[verifier::external_body]
pub(crate) fn hex_decode_text(s: &str) -> (r: Option<Vec<u8>>)
    ensures
        match r {
            Some(v) => hex_decode(vstd::utf8::encode_utf8(s@)) == Some(v@),
            None => hex_decode(vstd::utf8::encode_utf8(s@)) is None,
        },
{
    match hex::decode(s) {
        Ok(v) => Some(v),
        Err(_) => None,
    }
}

pub proof fn lemma_hex_digit(d: int)
    requires
        0 <= d < 16,
    ensures
        is_hex_lower(hex_digit(d)),
        hex_value(hex_digit(d) as u8) == Some(d),
{
}

/// The shape of `hex_encode`: two digits per byte.
pub proof fn lemma_hex_encode_shape(b: Seq<u8>)
    ensures
        hex_encode(b).len() == 2 * b.len(),
        forall|i: int|
            0 <= i < b.len() ==> hex_encode(b)[2 * i] == hex_digit(#[trigger] b[i] as int / 16)
                && hex_encode(b)[2 * i + 1] == hex_digit(b[i] as int % 16),
    decreases b.len(),
{
    if b.len() > 0 {
        lemma_hex_encode_shape(b.drop_last());
        let p = b.drop_last();
        assert forall|i: int| 0 <= i < b.len() implies hex_encode(b)[2 * i] == hex_digit(
            #[trigger] b[i] as int / 16,
        ) && hex_encode(b)[2 * i + 1] == hex_digit(b[i] as int % 16) by {
            if i < b.len() - 1 {
                assert(b[i] == p[i]);
            }
        }
    }
}

/// Every character of `hex_encode(b)` is a lowercase hexadecimal digit.
pub proof fn lemma_hex_encode_chars(b: Seq<u8>)
    ensures
        forall|i: int| 0 <= i < hex_encode(b).len() ==> is_hex_lower(#[trigger] hex_encode(b)[i]),
{
    lemma_hex_encode_shape(b);
    assert forall|i: int| 0 <= i < hex_encode(b).len() implies is_hex_lower(
        #[trigger] hex_encode(b)[i],
    ) by {
        let k = i / 2;
        assert(0 <= k < b.len());
        let x = b[k];
        lemma_hex_digit(x as int / 16);
        lemma_hex_digit(x as int % 16);
        if i % 2 == 0 {
            assert(i == 2 * k);
        } else {
            assert(i == 2 * k + 1);
        }
    }
}

proof fn lemma_ascii_char(c: char)
    requires
        is_hex_lower(c),
    ensures
        '\0' <= c <= '\u{7f}',
{
}

/// Decoding the encoding gives back the bytes.
pub proof fn lemma_hex_round_trip(b: Seq<u8>)
    ensures
        hex_decode(vstd::utf8::encode_utf8(hex_encode(b))) == Some(b),
{
    let h = hex_encode(b);
    lemma_hex_encode_shape(b);
    lemma_hex_encode_chars(b);
    assert(vstd::utf8::is_ascii_chars(h)) by {
        assert forall|i: int| 0 <= i < h.len() implies '\0' <= #[trigger] h[i] <= '\u{7f}' by {
            assert(is_hex_lower(h[i]));
            lemma_ascii_char(h[i]);
        }
    }
    vstd::utf8::is_ascii_chars_encode_utf8(h);
    let e = vstd::utf8::encode_utf8(h);
    assert forall|i: int| 0 <= i < e.len() implies (#[trigger] hex_value(e[i])) is Some by {
        let k = i / 2;
        let x = b[k];
        lemma_hex_digit(x as int / 16);
        lemma_hex_digit(x as int % 16);
        if i % 2 == 0 {
            assert(i == 2 * k);
        } else {
            assert(i == 2 * k + 1);
        }
        assert(e[i] == h[i] as u8);
    }
    let d = hex_decode(e)->0;
    assert forall|k: int| 0 <= k < b.len() implies #[trigger] d[k] == b[k] by {
        let x = b[k];
        lemma_hex_digit(x as int / 16);
        lemma_hex_digit(x as int % 16);
        assert(e[2 * k] == h[2 * k] as u8);
        assert(e[2 * k + 1] == h[2 * k + 1] as u8);
        assert(x as int == (x as int / 16) * 16 + x as int % 16);
    }
    assert(d =~= b);
}

} // verus!
