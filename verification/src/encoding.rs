//! Text encodings of bytes: URL-safe Base64 without padding (session ids),
//! lower-case hex (content hashes) and percent-encoding (download names).
use vstd::prelude::*;
use crate::text::push_char;
use base64::Engine;

verus! {

/// The character of a 6-bit value in a Base64 alphabet whose last two
/// characters are `c62` and `c63` (the first 62 are `A`-`Z`, `a`-`z`, `0`-`9`).
pub open spec fn base64_char_with(v: int, c62: char, c63: char) -> char {
    if v < 26 {
        (v + 'A' as int) as char
    } else if v < 52 {
        (v - 26 + 'a' as int) as char
    } else if v < 62 {
        (v - 52 + '0' as int) as char
    } else if v == 62 {
        c62
    } else {
        c63
    }
}

/// Base64 (RFC 4648) of `b` in the alphabet ending in `c62`, `c63`, without
/// `=` padding.
pub open spec fn base64_unpadded_with(b: Seq<u8>, c62: char, c63: char) -> Seq<char>
    decreases b.len(),
{
    if b.len() == 0 {
        seq![]
    } else if b.len() == 1 {
        seq![base64_char_with((b[0] as int) / 4, c62, c63), base64_char_with(((b[0] as int) % 4) * 16, c62, c63)]
    } else if b.len() == 2 {
        seq![
            base64_char_with((b[0] as int) / 4, c62, c63),
            base64_char_with(((b[0] as int) % 4) * 16 + (b[1] as int) / 16, c62, c63),
            base64_char_with(((b[1] as int) % 16) * 4, c62, c63),
        ]
    } else {
        seq![
            base64_char_with((b[0] as int) / 4, c62, c63),
            base64_char_with(((b[0] as int) % 4) * 16 + (b[1] as int) / 16, c62, c63),
            base64_char_with(((b[1] as int) % 16) * 4 + (b[2] as int) / 64, c62, c63),
            base64_char_with((b[2] as int) % 64, c62, c63),
        ] + base64_unpadded_with(b.subrange(3, b.len() as int), c62, c63)
    }
}

/// URL-safe Base64 (RFC 4648, section 5) of `b`, without `=` padding.
pub open spec fn base64_url_no_pad(b: Seq<u8>) -> Seq<char> {
    base64_unpadded_with(b, '-', '_')
}

/// Standard Base64 (RFC 4648, section 4) of `b`, without `=` padding: the
/// "B64" of PHC strings.
pub open spec fn base64_std_no_pad(b: Seq<u8>) -> Seq<char> {
    base64_unpadded_with(b, '+', '/')
}

/// Encodes bytes as URL-safe Base64 without padding:
/// `base64::engine::general_purpose::URL_SAFE_NO_PAD.encode`.
/// Trusted to produce exactly the RFC 4648 URL-safe alphabet encoding with
/// the padding left off, as the crate documents.
#[verifier::external_body]
pub(crate) fn encode_base64_url_no_pad(bytes: &[u8]) -> (s: String)
    ensures
        s@ == base64_url_no_pad(bytes@),
{
    base64::engine::general_purpose::URL_SAFE_NO_PAD.encode(bytes)
}

/// The lower-case hex digit for a value below 16.
pub open spec fn hex_lower_char(v: int) -> char {
    if v < 10 {
        (v + '0' as int) as char
    } else {
        (v - 10 + 'a' as int) as char
    }
}

/// The upper-case hex digit for a value below 16.
pub open spec fn hex_upper_char(v: int) -> char {
    if v < 10 {
        (v + '0' as int) as char
    } else {
        (v - 10 + 'A' as int) as char
    }
}

/// Each byte as two lower-case hex digits, as `format!("{:02x}")` writes it.
pub open spec fn hex_lower(b: Seq<u8>) -> Seq<char>
    decreases b.len(),
{
    if b.len() == 0 {
        seq![]
    } else {
        hex_lower(b.drop_last()).push(hex_lower_char((b.last() as int) / 16)).push(hex_lower_char((b.last() as int) % 16))
    }
}

fn hex_digit_lower(v: u8) -> (c: char)
    requires
        v < 16,
    ensures
        c == hex_lower_char(v as int),
{
    if v < 10 {
        (v + 48) as char
    } else {
        (v - 10 + 97) as char
    }
}

/// Each byte as two lower-case hex digits: how a SHA-256 digest is stored.
pub fn to_hex_lower(bytes: &[u8]) -> (s: String)
    ensures
        s@ == hex_lower(bytes@),
{
    let mut s = String::new();
    let mut i: usize = 0;
    assert(bytes@.subrange(0, 0) =~= Seq::<u8>::empty());
    while i < bytes.len()
        invariant
            0 <= i <= bytes@.len(),
            s@ == hex_lower(bytes@.subrange(0, i as int)),
        decreases bytes.len() - i,
    {
        let b = bytes[i];
        push_char(&mut s, hex_digit_lower(b / 16));
        push_char(&mut s, hex_digit_lower(b % 16));
        assert(bytes@.subrange(0, i + 1).drop_last() =~= bytes@.subrange(0, i as int));
        i = i + 1;
    }
    assert(bytes@.subrange(0, bytes@.len() as int) =~= bytes@);
    s
}

/// Whether a byte is an ASCII letter or digit.
pub open spec fn is_ascii_alphanumeric(b: u8) -> bool {
    (48 <= b <= 57) || (65 <= b <= 90) || (97 <= b <= 122)
}

/// Percent-encoding of `b` with every byte but ASCII letters and digits
/// written as `%` and two upper-case hex digits.
pub open spec fn percent_encoded(b: Seq<u8>) -> Seq<char>
    decreases b.len(),
{
    if b.len() == 0 {
        seq![]
    } else if is_ascii_alphanumeric(b.last()) {
        percent_encoded(b.drop_last()).push(b.last() as char)
    } else {
        percent_encoded(b.drop_last()).push('%').push(hex_upper_char((b.last() as int) / 16)).push(
            hex_upper_char((b.last() as int) % 16),
        )
    }
}

/// Percent-encodes bytes with the set of all non-alphanumeric ASCII bytes:
/// `percent_encoding::percent_encode(bytes, NON_ALPHANUMERIC)` rendered with
/// `to_string`. Trusted, from the crate's source: bytes outside ASCII and
/// ASCII bytes other than letters and digits become `%XX` (upper-case hex),
/// letters and digits stay as they are.
#[verifier::external_body]
pub(crate) fn percent_encode_non_alphanumeric(bytes: &[u8]) -> (s: String)
    ensures
        s@ == percent_encoded(bytes@),
{
    percent_encoding::percent_encode(bytes, percent_encoding::NON_ALPHANUMERIC).to_string()
}

} // verus!
