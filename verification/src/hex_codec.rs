//! Hexadecimal text for byte strings, through the `hex` crate.

use vstd::prelude::*;
use vstd::utf8::*;

verus! {

/// The ASCII code of the lowercase hex digit for a value below 16.
pub open spec fn hex_digit_byte(nibble: int) -> u8 {
    if nibble < 10 {
        (48 + nibble) as u8
    } else {
        (87 + nibble) as u8
    }
}

/// The lowercase hex text of `data`, as ASCII codes: two digits per byte,
/// the high half first.
pub open spec fn spec_hex_encode_bytes(data: Seq<u8>) -> Seq<u8>
    decreases data.len(),
{
    if data.len() == 0 {
        Seq::empty()
    } else {
        seq![hex_digit_byte(data[0] as int / 16), hex_digit_byte(data[0] as int % 16)] + spec_hex_encode_bytes(
            data.drop_first(),
        )
    }
}

/// The lowercase hex text of `data`.
pub open spec fn spec_hex_encode(data: Seq<u8>) -> Seq<char> {
    spec_hex_encode_bytes(data).map_values(|b: u8| b as char)
}

/// The value of a hex digit given by its ASCII code, either case.
pub open spec fn hex_value(c: u8) -> Option<u8> {
    if 65 <= c <= 70 {
        Some((c - 55) as u8)
    } else if 97 <= c <= 102 {
        Some((c - 87) as u8)
    } else if 48 <= c <= 57 {
        Some((c - 48) as u8)
    } else {
        None
    }
}

/// The bytes that consecutive pairs of hex digits stand for, if each of
/// them is a digit.
pub open spec fn hex_decode_pairs(text: Seq<u8>) -> Option<Seq<u8>>
    decreases text.len(),
{
    if text.len() == 0 {
        Some(Seq::empty())
    } else if text.len() == 1 {
        None
    } else {
        match (hex_value(text[0]), hex_value(text[1]), hex_decode_pairs(text.skip(2))) {
            (Some(high), Some(low), Some(rest)) => Some(seq![(high * 16 + low) as u8] + rest),
            _ => None,
        }
    }
}

/// The bytes that hex text stands for: `None` when its length is odd or
/// one of its characters is not a hex digit.
pub open spec fn spec_hex_decode(text: Seq<u8>) -> Option<Seq<u8>> {
    if text.len() % 2 != 0 {
        None
    } else {
        hex_decode_pairs(text)
    }
}

/// Calls `hex::encode`. Claimed of it: the result is the lowercase hex text
/// of `data`, two digits per byte with the high half first, as the crate's
/// `BytesToHexChars` iterator produces it from `HEX_CHARS_LOWER`.
#[verifier::external_body]
pub(crate) fn hex_encode(data: &[u8]) -> (text: String)
    ensures
        text@ == spec_hex_encode(data@),
{
    hex::encode(data)
}

/// Calls `hex::decode` and keeps the bytes, dropping the error. Claimed of
/// it: it fails exactly on text of odd length or with a byte that is not a
/// digit in either case, and otherwise gives the byte each pair of digits
/// stands for, as `FromHex for Vec<u8>` computes with `val`.
#[verifier::external_body]
pub(crate) fn hex_decode(text: &[u8]) -> (data: Option<Vec<u8>>)
    ensures
        match data {
            Some(bytes) => spec_hex_decode(text@) == Some(bytes@),
            None => spec_hex_decode(text@) is None,
        },
{
    hex::decode(text).ok()
}

proof fn lemma_hex_encode_bytes_len(data: Seq<u8>)
    ensures
        spec_hex_encode_bytes(data).len() == 2 * data.len(),
        forall|i: int|
            0 <= i < spec_hex_encode_bytes(data).len() ==> {
                let b = #[trigger] spec_hex_encode_bytes(data)[i];
                (48 <= b <= 57) || (97 <= b <= 102)
            },
    decreases data.len(),
{
    if data.len() > 0 {
        lemma_hex_encode_bytes_len(data.drop_first());
        let head = seq![hex_digit_byte(data[0] as int / 16), hex_digit_byte(data[0] as int % 16)];
        let tail = spec_hex_encode_bytes(data.drop_first());
        assert forall|i: int| 0 <= i < spec_hex_encode_bytes(data).len() implies {
            let b = #[trigger] spec_hex_encode_bytes(data)[i];
            (48 <= b <= 57) || (97 <= b <= 102)
        } by {
            if i >= 2 {
                assert(spec_hex_encode_bytes(data)[i] == tail[i - 2]);
            }
        }
    }
}

/// Decoding hex text that encoding produced gives back the bytes.
pub proof fn lemma_hex_decode_encode_bytes(data: Seq<u8>)
    ensures
        spec_hex_decode(spec_hex_encode_bytes(data)) == Some(data),
{
    lemma_hex_encode_bytes_len(data);
    lemma_hex_decode_pairs_encode(data);
}

proof fn lemma_hex_decode_pairs_encode(data: Seq<u8>)
    ensures
        hex_decode_pairs(spec_hex_encode_bytes(data)) == Some(data),
    decreases data.len(),
{
    if data.len() > 0 {
        let text = spec_hex_encode_bytes(data);
        let rest = data.drop_first();
        lemma_hex_decode_pairs_encode(rest);
        assert(text.skip(2) =~= spec_hex_encode_bytes(rest));
        let b = data[0];
        assert(hex_value(text[0]) == Some((b / 16) as u8));
        assert(hex_value(text[1]) == Some((b % 16) as u8));
        assert(((b / 16) * 16 + b % 16) as u8 == b);
        assert(seq![b] + rest =~= data);
    }
}

/// A lowercase hex digit.
pub open spec fn is_lower_hex_digit(c: char) -> bool {
    ('0' <= c <= '9') || ('a' <= c <= 'f')
}

/// Text made of lowercase hex digits only.
pub open spec fn is_lower_hex(text: Seq<char>) -> bool {
    forall|i: int| 0 <= i < text.len() ==> is_lower_hex_digit(#[trigger] text[i])
}

/// Hex text has two lowercase digits per byte, the first byte's high half
/// first.
pub proof fn lemma_hex_encode_shape(data: Seq<u8>)
    ensures
        spec_hex_encode(data).len() == 2 * data.len(),
        is_lower_hex(spec_hex_encode(data)),
        data.len() > 0 ==> spec_hex_encode(data)[0] == hex_digit_byte(data[0] as int / 16) as char,
        data.len() > 0 ==> spec_hex_encode(data)[1] == hex_digit_byte(data[0] as int % 16) as char,
{
    lemma_hex_encode_bytes_len(data);
    let text = spec_hex_encode_bytes(data);
    assert forall|i: int| 0 <= i < spec_hex_encode(data).len() implies is_lower_hex_digit(#[trigger] spec_hex_encode(data)[i]) by {
        let b = text[i];
        assert((48 <= b <= 57) || (97 <= b <= 102));
    }
}

/// The UTF-8 bytes of hex text are its ASCII codes, and decoding them gives
/// back the encoded bytes.
pub proof fn lemma_hex_round_trip(data: Seq<u8>)
    ensures
        encode_utf8(spec_hex_encode(data)) == spec_hex_encode_bytes(data),
        spec_hex_decode(encode_utf8(spec_hex_encode(data))) == Some(data),
{
    let text = spec_hex_encode_bytes(data);
    let chars = spec_hex_encode(data);
    lemma_hex_encode_bytes_len(data);
    assert forall|i: int| 0 <= i < chars.len() implies '\0' <= #[trigger] chars[i] <= '\u{7f}' by {
        assert((48 <= text[i] <= 57) || (97 <= text[i] <= 102));
    }
    is_ascii_chars_encode_utf8(chars);
    assert forall|i: int| 0 <= i < chars.len() implies #[trigger] encode_utf8(chars)[i] == text[i] by {
        assert(chars[i] as u8 == encode_utf8(chars)[i]);
        assert((48 <= text[i] <= 57) || (97 <= text[i] <= 102));
    }
    assert(encode_utf8(chars) =~= text);
    lemma_hex_decode_encode_bytes(data);
}

} // verus!
