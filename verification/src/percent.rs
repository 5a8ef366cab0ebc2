//! Percent-decoding of request paths.
//!
//! A path is read as its UTF-8 bytes. Each `%` must be followed by two
//! hexadecimal digits, and the three bytes stand for the one byte the digits
//! spell; every other byte stands for itself. The resulting bytes must again
//! be UTF-8.

use vstd::prelude::*;
use vstd::string::StringSliceAdditionalSpecFns;
use vstd::utf8::{decode_utf8, encode_utf8, valid_utf8};
use crate::text::string_of;

verus! {

broadcast use vstd::utf8::group_utf8_lib;

/// The byte `%`.
pub const PERCENT: u8 = 0x25;

/// The value of a hexadecimal digit, in either case.
pub open spec fn hex_value(b: u8) -> Option<u8> {
    if 0x30 <= b <= 0x39 {
        Some((b - 0x30) as u8)
    } else if 0x41 <= b <= 0x46 {
        Some((b - 0x41 + 10) as u8)
    } else if 0x61 <= b <= 0x66 {
        Some((b - 0x61 + 10) as u8)
    } else {
        None
    }
}

/// Whether an escape, `%` and two hexadecimal digits, begins `s`.
pub open spec fn escape_at_start(s: Seq<u8>) -> bool {
    s.len() >= 3 && s[0] == PERCENT && hex_value(s[1]) is Some && hex_value(s[2]) is Some
}

/// The byte that the escape at the start of `s` stands for.
pub open spec fn escaped_byte(s: Seq<u8>) -> u8
    recommends
        escape_at_start(s),
{
    (hex_value(s[1]).unwrap() * 16 + hex_value(s[2]).unwrap()) as u8
}

/// Prepends `b` to a decoding of the rest, if the rest could be decoded.
pub open spec fn prepend(b: u8, rest: Option<Seq<u8>>) -> Option<Seq<u8>> {
    match rest {
        Some(r) => Some(seq![b] + r),
        None => None,
    }
}

/// The bytes that `s` stands for, or `None` where a `%` in it is not
/// followed by two hexadecimal digits.
pub open spec fn decoded_bytes(s: Seq<u8>) -> Option<Seq<u8>>
    decreases s.len(),
{
    if s.len() == 0 {
        Some(Seq::empty())
    } else if s[0] != PERCENT {
        prepend(s[0], decoded_bytes(s.skip(1)))
    } else if escape_at_start(s) {
        prepend(escaped_byte(s), decoded_bytes(s.skip(3)))
    } else {
        None
    }
}

/// The text that `s` stands for, or `None` where an escape is malformed or
/// the decoded bytes are not UTF-8.
pub open spec fn percent_decoded(s: Seq<char>) -> Option<Seq<char>> {
    match decoded_bytes(encode_utf8(s)) {
        Some(bytes) => if valid_utf8(bytes) {
            Some(decode_utf8(bytes))
        } else {
            None
        },
        None => None,
    }
}

/// Texts that can be percent-decoded.
pub trait PercentDecoder {
    /// The decoded text, or `None` where the text is malformed.
    fn decode_percent(&self) -> Option<String>;
}

impl PercentDecoder for str {
    fn decode_percent(&self) -> (decoded: Option<String>)
        ensures
            match percent_decoded(self@) {
                Some(text) => decoded matches Some(d) && d@ == text,
                None => decoded is None,
            },
            !self@.contains('%') ==> (decoded matches Some(d) && d@ == self@),
    {
        proof {
            if !self@.contains('%') {
                lemma_decode_plain(self@);
            }
        }
        match decode_bytes(self.as_bytes()) {
            Some(bytes) => string_from_utf8(bytes),
            None => None,
        }
    }
}

/// The value of the hexadecimal digit `b`.
fn hex_to_u8(b: u8) -> (value: Option<u8>)
    ensures
        value == hex_value(b),
{
    if 0x30 <= b && b <= 0x39 {
        Some(b - 0x30)
    } else if 0x41 <= b && b <= 0x46 {
        Some(b - 0x41 + 10)
    } else if 0x61 <= b && b <= 0x66 {
        Some(b - 0x61 + 10)
    } else {
        None
    }
}

/// Decodes the escapes in `src` in one pass from left to right.
pub fn decode_bytes(src: &[u8]) -> (decoded: Option<Vec<u8>>)
    ensures
        match decoded_bytes(src@) {
            Some(bytes) => decoded matches Some(d) && d@ == bytes,
            None => decoded is None,
        },
{
    let n = src.len();
    let mut buf: Vec<u8> = Vec::new();
    let mut i: usize = 0;
    assert(src@.skip(0) == src@);
    while i < n
        invariant
            i <= n,
            n == src.len(),
            decoded_bytes(src@) == match decoded_bytes(src@.skip(i as int)) {
                Some(rest) => Some(buf@ + rest),
                None => None,
            },
        decreases n - i,
    {
        let ghost rest = src@.skip(i as int);
        let ghost before = buf@;
        let c = src[i];
        assert(rest[0] == c);
        if c != PERCENT {
            assert(rest.skip(1) == src@.skip(i + 1));
            buf.push(c);
            i += 1;
        } else {
            if n - i < 3 {
                return None;
            }
            assert(rest[1] == src[i + 1] && rest[2] == src[i + 2]);
            let byte = match (hex_to_u8(src[i + 1]), hex_to_u8(src[i + 2])) {
                (Some(high), Some(low)) => high * 16 + low,
                _ => {
                    return None;
                },
            };
            assert(rest.skip(3) == src@.skip(i + 3));
            buf.push(byte);
            i += 3;
        }
        assert forall|tail: Seq<u8>| before + (seq![buf@.last()] + tail) == buf@ + tail by {
            assert(before + (seq![buf@.last()] + tail) =~= buf@ + tail);
        }
    }
    assert(buf@ + Seq::<u8>::empty() == buf@);
    Some(buf)
}

/// Bytes that need no escape: ASCII letters and digits, `-`, `.`, `_`, `~`.
pub open spec fn is_unreserved(b: u8) -> bool {
    ||| 0x41 <= b <= 0x5a
    ||| 0x61 <= b <= 0x7a
    ||| 0x30 <= b <= 0x39
    ||| b == 0x2d
    ||| b == 0x2e
    ||| b == 0x5f
    ||| b == 0x7e
}

/// The upper-case hexadecimal digit for a value below 16.
pub open spec fn hex_digit(value: u8) -> u8
    recommends
        value < 16,
{
    if value < 10 {
        (0x30 + value) as u8
    } else {
        (0x41 + value - 10) as u8
    }
}

/// The escape that stands for `b`.
pub open spec fn escape_of(b: u8) -> Seq<u8> {
    seq![PERCENT, hex_digit(b / 16), hex_digit(b % 16)]
}

/// The percent-encoding of `s`: unreserved bytes as they are, an escape for
/// every other byte.
pub open spec fn encoded_bytes(s: Seq<u8>) -> Seq<u8>
    decreases s.len(),
{
    if s.len() == 0 {
        Seq::empty()
    } else if is_unreserved(s.last()) {
        encoded_bytes(s.drop_last()).push(s.last())
    } else {
        encoded_bytes(s.drop_last()) + escape_of(s.last())
    }
}

/// The percent-encoding of a text, which is ASCII throughout.
pub open spec fn percent_encoded(s: Seq<char>) -> Seq<char> {
    encoded_bytes(encode_utf8(s)).map_values(|b: u8| b as char)
}

/// Percent-encodes `s`, so that `decode_percent` gives `s` back.
pub fn encode_percent(s: &str) -> (encoded: String)
    ensures
        encoded@ == percent_encoded(s@),
        percent_decoded(encoded@) == Some(s@),
{
    proof {
        lemma_decode_encode(s@);
    }
    let src = s.as_bytes();
    let mut out: Vec<char> = Vec::new();
    let mut i: usize = 0;
    while i < src.len()
        invariant
            i <= src.len(),
            out@ == encoded_bytes(src@.take(i as int)).map_values(|b: u8| b as char),
        decreases src.len() - i,
    {
        let b = src[i];
        assert(src@.take(i + 1).drop_last() == src@.take(i as int));
        if is_unreserved_byte(b) {
            out.push(b as char);
        } else {
            out.push('%');
            out.push(hex_digit_of(b / 16) as char);
            out.push(hex_digit_of(b % 16) as char);
        }
        assert(out@ == encoded_bytes(src@.take(i + 1)).map_values(|b: u8| b as char));
        i += 1;
    }
    assert(src@.take(i as int) == src@);
    let n = out.len();
    string_of(&out, 0, n)
}

/// Whether `b` needs no escape.
fn is_unreserved_byte(b: u8) -> (unreserved: bool)
    ensures
        unreserved == is_unreserved(b),
{
    (0x41 <= b && b <= 0x5a) || (0x61 <= b && b <= 0x7a) || (0x30 <= b && b <= 0x39) || b == 0x2d
        || b == 0x2e || b == 0x5f || b == 0x7e
}

/// The upper-case hexadecimal digit for `value`.
fn hex_digit_of(value: u8) -> (digit: u8)
    requires
        value < 16,
    ensures
        digit == hex_digit(value),
{
    if value < 10 {
        0x30 + value
    } else {
        0x41 + value - 10
    }
}

/// Decoding goes through a concatenation where the first part decodes.
pub proof fn lemma_decoded_bytes_concat(a: Seq<u8>, b: Seq<u8>)
    requires
        decoded_bytes(a) is Some,
    ensures
        decoded_bytes(a + b) == match decoded_bytes(b) {
            Some(rest) => Some(decoded_bytes(a).unwrap() + rest),
            None => None,
        },
    decreases a.len(),
{
    if a.len() == 0 {
        assert(a + b == b);
        if let Some(rest) = decoded_bytes(b) {
            assert(decoded_bytes(a).unwrap() + rest == rest);
        }
    } else {
        let k: int = if a[0] != PERCENT { 1 } else { 3 };
        assert((a + b).skip(k) == a.skip(k) + b);
        lemma_decoded_bytes_concat(a.skip(k), b);
        if let Some(rest) = decoded_bytes(b) {
            let head = if a[0] != PERCENT { a[0] } else { escaped_byte(a) };
            assert(seq![head] + (decoded_bytes(a.skip(k)).unwrap() + rest) == (seq![head]
                + decoded_bytes(a.skip(k)).unwrap()) + rest);
        }
    }
}

/// An escape decodes to the byte it was made for.
pub proof fn lemma_escape_decodes(b: u8)
    ensures
        decoded_bytes(escape_of(b)) == Some(seq![b]),
{
    let e = escape_of(b);
    assert(b / 16 < 16 && b % 16 < 16 && (b / 16) * 16 + b % 16 == b);
    assert(hex_value(hex_digit(b / 16)) == Some((b / 16) as u8));
    assert(hex_value(hex_digit(b % 16)) == Some((b % 16) as u8));
    assert(escape_at_start(e));
    assert(escaped_byte(e) == b);
    assert(e.skip(3) == Seq::<u8>::empty());
    assert(decoded_bytes(e.skip(3)) == Some(Seq::<u8>::empty()));
    assert(seq![b] + Seq::<u8>::empty() == seq![b]);
}

/// Decoding undoes encoding, byte for byte.
pub proof fn lemma_decode_encoded_bytes(s: Seq<u8>)
    ensures
        decoded_bytes(encoded_bytes(s)) == Some(s),
        forall|i: int| 0 <= i < encoded_bytes(s).len() ==> encoded_bytes(s)[i] < 0x80,
    decreases s.len(),
{
    if s.len() > 0 {
        let b = s.last();
        lemma_decode_encoded_bytes(s.drop_last());
        let tail = if is_unreserved(b) { seq![b] } else { escape_of(b) };
        assert(encoded_bytes(s) == encoded_bytes(s.drop_last()) + tail);
        if is_unreserved(b) {
            assert(tail.skip(1) == Seq::<u8>::empty());
            assert(decoded_bytes(tail.skip(1)) == Some(Seq::<u8>::empty()));
            assert(seq![b] + Seq::<u8>::empty() == seq![b]);
        } else {
            lemma_escape_decodes(b);
        }
        assert(decoded_bytes(tail) == Some(seq![b]));
        lemma_decoded_bytes_concat(encoded_bytes(s.drop_last()), tail);
        assert(s.drop_last() + seq![b] == s);
    } else {
        assert(s == Seq::<u8>::empty());
    }
}

/// Decoding undoes encoding: `decode_percent` of `encode_percent` of any
/// text is that text.
pub proof fn lemma_decode_encode(s: Seq<char>)
    ensures
        percent_decoded(percent_encoded(s)) == Some(s),
{
    let bytes = encoded_bytes(encode_utf8(s));
    let text = percent_encoded(s);
    lemma_decode_encoded_bytes(encode_utf8(s));
    assert(vstd::utf8::is_ascii_chars(text));
    vstd::utf8::is_ascii_chars_encode_utf8(text);
    assert(encode_utf8(text) =~= bytes);
}

/// A byte sequence without `%` decodes to itself.
pub proof fn lemma_decode_plain_bytes(s: Seq<u8>)
    requires
        !s.contains(PERCENT),
    ensures
        decoded_bytes(s) == Some(s),
    decreases s.len(),
{
    if s.len() > 0 {
        assert(s[0] != PERCENT);
        assert forall|b: u8| s.skip(1).contains(b) implies s.contains(b) by {
            let i = choose|i: int| 0 <= i < s.skip(1).len() && s.skip(1)[i] == b;
            assert(s[i + 1] == b);
        }
        lemma_decode_plain_bytes(s.skip(1));
        assert(seq![s[0]] + s.skip(1) == s);
    }
}

/// No byte of the UTF-8 encoding of a code point other than `%` is the byte `%`.
proof fn lemma_scalar_without_percent(c: u32)
    by (bit_vector)
    requires
        c != 0x25,
    ensures
        c <= 0x7f ==> (c & 0x7F) as u8 != 0x25u8,
        0xC0u8 | ((c >> 6) & 0x1F) as u8 != 0x25u8,
        0xE0u8 | ((c >> 12) & 0x0F) as u8 != 0x25u8,
        0xF0u8 | ((c >> 18) & 0x7) as u8 != 0x25u8,
        0x80u8 | (c & 0x3F) as u8 != 0x25u8,
        0x80u8 | ((c >> 6) & 0x3F) as u8 != 0x25u8,
        0x80u8 | ((c >> 12) & 0x3F) as u8 != 0x25u8,
{
}

/// The UTF-8 encoding of a text without `%` holds no byte `%`.
pub proof fn lemma_plain_text_plain_bytes(s: Seq<char>)
    requires
        !s.contains('%'),
    ensures
        !encode_utf8(s).contains(PERCENT),
    decreases s.len(),
{
    if s.len() > 0 {
        assert(s[0] != '%');
        assert forall|c: char| s.drop_first().contains(c) implies s.contains(c) by {
            let i = choose|i: int| 0 <= i < s.drop_first().len() && s.drop_first()[i] == c;
            assert(s[i + 1] == c);
        }
        lemma_plain_text_plain_bytes(s.drop_first());
        let head = vstd::utf8::encode_scalar(s[0] as u32);
        let tail = encode_utf8(s.drop_first());
        assert(s[0] as u32 != 0x25) by {
            vstd::utf8::char_u32_cast(s[0], s[0] as u32);
            assert('%' as u32 == 0x25);
        }
        lemma_scalar_without_percent(s[0] as u32);
        assert forall|i: int| 0 <= i < (head + tail).len() implies (head + tail)[i] != PERCENT by {
            if i >= head.len() {
                assert(tail.contains(tail[i - head.len()]));
            }
        }
    }
}

/// A text without `%` decodes to itself.
pub proof fn lemma_decode_plain(s: Seq<char>)
    requires
        !s.contains('%'),
    ensures
        percent_decoded(s) == Some(s),
{
    lemma_plain_text_plain_bytes(s);
    lemma_decode_plain_bytes(encode_utf8(s));
}

/// `String::from_utf8`: the text whose UTF-8 encoding is `bytes`, and `None`
/// exactly where `bytes` is not well-formed UTF-8.
#[verifier::external_body]
fn string_from_utf8(bytes: Vec<u8>) -> (text: Option<String>)
    ensures
        text is Some <==> valid_utf8(bytes@),
        text matches Some(t) ==> encode_utf8(t@) == bytes@,
{
    String::from_utf8(bytes).ok()
}

} // verus!
