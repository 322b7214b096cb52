//! Percent-encoding of query parameters.

use vstd::prelude::*;
use vstd::utf8::*;

verus! {

/// Whether a byte stands for itself in a query parameter: letters, digits, `-`, `.`, `_`, `~`.
pub open spec fn is_unreserved(b: u8) -> bool {
    ||| 0x30 <= b <= 0x39
    ||| 0x41 <= b <= 0x5a
    ||| 0x61 <= b <= 0x7a
    ||| b == 0x2d
    ||| b == 0x2e
    ||| b == 0x5f
    ||| b == 0x7e
}

/// An upper-case hexadecimal digit.
pub open spec fn hex_digit(d: int) -> char
    recommends
        0 <= d < 16,
{
    if d < 10 {
        (0x30 + d) as char
    } else {
        (0x41 + d - 10) as char
    }
}

/// A byte in a query parameter: itself, or a percent sign and its two hexadecimal digits.
pub open spec fn encoded_byte(b: u8) -> Seq<char> {
    if is_unreserved(b) {
        seq![b as char]
    } else {
        seq!['%', hex_digit(b as int / 16), hex_digit(b as int % 16)]
    }
}

/// The bytes of a text in a query parameter, one after the other.
pub open spec fn encoded_bytes(bytes: Seq<u8>) -> Seq<char> {
    bytes.map_values(|b: u8| encoded_byte(b)).flatten()
}

/// A text in a query parameter: its UTF-8 bytes, percent-encoded.
pub open spec fn percent_encoded(text: Seq<char>) -> Seq<char> {
    encoded_bytes(encode_utf8(text))
}

/// Trusted: `urlencoding::encode` percent-encodes every byte of the UTF-8 form of a text, except
/// letters, digits, `-`, `.`, `_` and `~`, with upper-case hexadecimal digits.
#[verifier::external_body]
pub(crate) fn percent_encode(text: &str) -> (out: String)
    ensures
        out@ == percent_encoded(text@),
{
    urlencoding::encode(text).into_owned()
}

/// Whether a character can stand in an encoded query parameter.
pub open spec fn is_query_safe(c: char) -> bool {
    c == '%' || (c <= '\u{7f}' && is_unreserved(c as u8))
}

proof fn lemma_encoded_byte_safe(b: u8, i: int)
    requires
        0 <= i < encoded_byte(b).len(),
    ensures
        is_query_safe(encoded_byte(b)[i]),
{
    let c = encoded_byte(b)[i];
    if is_unreserved(b) {
        assert((b as char) as u8 == b);
    } else if i > 0 {
        let d: int = if i == 1 {
            b as int / 16
        } else {
            b as int % 16
        };
        assert(0 <= d < 16);
        assert(c == hex_digit(d));
    }
}

proof fn lemma_encoded_bytes_safe(bytes: Seq<u8>)
    ensures
        forall|i: int|
            0 <= i < encoded_bytes(bytes).len() ==> is_query_safe(
                #[trigger] encoded_bytes(bytes)[i],
            ),
    decreases bytes.len(),
{
    let f = |b: u8| encoded_byte(b);
    let pieces = bytes.map_values(f);
    if bytes.len() > 0 {
        let rest = bytes.drop_first();
        lemma_encoded_bytes_safe(rest);
        assert(pieces.drop_first() =~= rest.map_values(f));
        assert(pieces.first() == encoded_byte(bytes[0]));
        let out = encoded_bytes(bytes);
        assert forall|i: int| 0 <= i < out.len() implies is_query_safe(#[trigger] out[i]) by {
            let n = encoded_byte(bytes[0]).len();
            if i < n {
                lemma_encoded_byte_safe(bytes[0], i);
                assert(out[i] == encoded_byte(bytes[0])[i]);
            } else {
                assert(out[i] == encoded_bytes(rest)[i - n]);
            }
        }
    }
}

/// An encoded query parameter holds only letters, digits, `-`, `.`, `_`, `~` and percent signs: no
/// character that could end the parameter.
pub proof fn law_encoded_safe(text: Seq<char>)
    ensures
        forall|i: int|
            0 <= i < percent_encoded(text).len() ==> is_query_safe(
                #[trigger] percent_encoded(text)[i],
            ),
{
    lemma_encoded_bytes_safe(encode_utf8(text));
}

proof fn lemma_unreserved_unchanged(bytes: Seq<u8>)
    requires
        forall|i: int| 0 <= i < bytes.len() ==> is_unreserved(#[trigger] bytes[i]),
    ensures
        encoded_bytes(bytes) == bytes.map_values(|b: u8| b as char),
    decreases bytes.len(),
{
    let f = |b: u8| encoded_byte(b);
    let pieces = bytes.map_values(f);
    if bytes.len() > 0 {
        let rest = bytes.drop_first();
        assert forall|i: int| 0 <= i < rest.len() implies is_unreserved(#[trigger] rest[i]) by {
            assert(rest[i] == bytes[i + 1]);
        }
        lemma_unreserved_unchanged(rest);
        assert(pieces.drop_first() =~= rest.map_values(f));
        assert(is_unreserved(bytes[0]));
        assert(pieces.first() == seq![bytes[0] as char]);
        assert(encoded_bytes(bytes) =~= bytes.map_values(|b: u8| b as char));
    } else {
        assert(encoded_bytes(bytes) =~= bytes.map_values(|b: u8| b as char));
    }
}

proof fn lemma_char_not_negative(c: char)
    ensures
        '\0' <= c,
{
}

proof fn lemma_encoded_bytes_longer(bytes: Seq<u8>)
    ensures
        encoded_bytes(bytes).len() >= bytes.len(),
        encoded_bytes(bytes).len() == bytes.len() ==> forall|i: int|
            0 <= i < bytes.len() ==> is_unreserved(#[trigger] bytes[i]),
    decreases bytes.len(),
{
    let f = |b: u8| encoded_byte(b);
    let pieces = bytes.map_values(f);
    if bytes.len() > 0 {
        let rest = bytes.drop_first();
        lemma_encoded_bytes_longer(rest);
        assert(pieces.drop_first() =~= rest.map_values(f));
        assert(pieces.first() == encoded_byte(bytes[0]));
        if encoded_bytes(bytes).len() == bytes.len() {
            assert forall|i: int| 0 <= i < bytes.len() implies is_unreserved(
                #[trigger] bytes[i],
            ) by {
                if i > 0 {
                    assert(rest[i - 1] == bytes[i]);
                }
            }
        }
    }
}

proof fn lemma_utf8_longer(text: Seq<char>)
    ensures
        encode_utf8(text).len() >= text.len(),
    decreases text.len(),
{
    if text.len() > 0 {
        lemma_utf8_longer(text.drop_first());
    }
}

/// Whether a text holds only letters, digits, `-`, `.`, `_` and `~`.
pub open spec fn all_unreserved(text: Seq<char>) -> bool {
    forall|i: int|
        0 <= i < text.len() ==> (#[trigger] text[i]) <= '\u{7f}' && is_unreserved(text[i] as u8)
}

/// A text is its own encoding exactly where it holds only letters, digits, `-`, `.`, `_` and `~`.
pub proof fn law_unreserved_unchanged(text: Seq<char>)
    ensures
        percent_encoded(text) == text <==> all_unreserved(text),
{
    let bytes = encode_utf8(text);
    if all_unreserved(text) {
        assert(is_ascii_chars(text)) by {
            assert forall|i| 0 <= i < text.len() implies '\0' <= #[trigger] text[i] <= '\u{7f}' by {
                lemma_char_not_negative(text[i]);
            }
        }
        is_ascii_chars_encode_utf8(text);
        assert forall|i: int| 0 <= i < bytes.len() implies is_unreserved(#[trigger] bytes[i]) by {
            assert(bytes[i] == text[i] as u8);
        }
        lemma_unreserved_unchanged(bytes);
        assert(percent_encoded(text) =~= text);
    }
    if percent_encoded(text) == text {
        lemma_encoded_bytes_longer(bytes);
        lemma_utf8_longer(text);
        lemma_unreserved_unchanged(bytes);
        assert forall|i: int| 0 <= i < text.len() implies (#[trigger] text[i]) <= '\u{7f}'
            && is_unreserved(text[i] as u8) by {
            assert(is_unreserved(bytes[i]));
            assert(text[i] == bytes[i] as char);
        }
    }
}

} // verus!
