//! Text encodings of bytes: hexadecimal, base64, percent-encoding and
//! form encoding.

use vstd::prelude::*;
use vstd::utf8::encode_utf8;
use base64::Engine;
use crate::text::push_char;

verus! {

/// The hexadecimal digit for `d < 16`, upper- or lower-case.
pub open spec fn hex_digit(d: int, upper: bool) -> char {
    if d < 10 {
        (48 + d) as char
    } else if upper {
        (55 + d) as char
    } else {
        (87 + d) as char
    }
}

/// Each byte as two hexadecimal digits, high half first.
pub open spec fn hex_text(bytes: Seq<u8>, upper: bool) -> Seq<char>
    decreases bytes.len(),
{
    if bytes.len() == 0 {
        Seq::<char>::empty()
    } else {
        hex_text(bytes.drop_last(), upper) + seq![
            hex_digit(bytes.last() as int / 16, upper),
            hex_digit(bytes.last() as int % 16, upper),
        ]
    }
}

/// Lower-case hexadecimal text of bytes.
///
/// Calls `hex::encode`; the contract claims it writes each byte as two
/// lower-case digits, high half first.
#[verifier::external_body]
pub(crate) fn hex_lower(bytes: &[u8]) -> (r: String)
    ensures
        r@ == hex_text(bytes@, false),
{
    hex::encode(bytes)
}

/// Upper-case hexadecimal text of bytes.
///
/// Calls `hex::encode_upper`; the contract claims it writes each byte as
/// two upper-case digits, high half first.
#[verifier::external_body]
pub(crate) fn hex_upper(bytes: &[u8]) -> (r: String)
    ensures
        r@ == hex_text(bytes@, true),
{
    hex::encode_upper(bytes)
}

/// The base64 digit for a six-bit value.
pub open spec fn b64_digit(v: int) -> char {
    if v < 26 {
        (65 + v) as char
    } else if v < 52 {
        (71 + v) as char
    } else if v < 62 {
        (v - 4) as char
    } else if v == 62 {
        '+'
    } else {
        '/'
    }
}

/// Standard base64 with `=` padding: every three bytes become four digits.
pub open spec fn base64_text(b: Seq<u8>) -> Seq<char>
    decreases b.len(),
{
    if b.len() == 0 {
        Seq::<char>::empty()
    } else {
        let x = b[0] as int;
        let y = if b.len() > 1 {
            b[1] as int
        } else {
            0
        };
        let z = if b.len() > 2 {
            b[2] as int
        } else {
            0
        };
        if b.len() == 1 {
            seq![b64_digit(x / 4), b64_digit((x % 4) * 16), '=', '=']
        } else if b.len() == 2 {
            seq![b64_digit(x / 4), b64_digit((x % 4) * 16 + y / 16), b64_digit((y % 16) * 4), '=']
        } else {
            seq![
                b64_digit(x / 4),
                b64_digit((x % 4) * 16 + y / 16),
                b64_digit((y % 16) * 4 + z / 64),
                b64_digit(z % 64),
            ] + base64_text(b.skip(3))
        }
    }
}

/// Base64 text has four digits for every three bytes begun, and ends in
/// `=` when the bytes do not fill their last group.
pub proof fn lemma_base64_shape(b: Seq<u8>)
    ensures
        base64_text(b).len() == 4 * ((b.len() + 2) / 3),
        b.len() % 3 != 0 ==> base64_text(b).last() == '=',
    decreases b.len(),
{
    if b.len() > 2 {
        lemma_base64_shape(b.skip(3));
        assert(b.skip(3).len() == b.len() - 3);
    }
}

/// Standard padded base64 of bytes.
///
/// Calls the `encode` method of `base64::engine::general_purpose::STANDARD`;
/// the contract claims the standard alphabet with `=` padding.
#[verifier::external_body]
pub(crate) fn base64_standard(bytes: &[u8]) -> (r: String)
    ensures
        r@ == base64_text(bytes@),
{
    base64::engine::general_purpose::STANDARD.encode(bytes)
}

/// An ASCII letter or digit.
pub open spec fn is_alnum_byte(b: u8) -> bool {
    (48 <= b <= 57) || (65 <= b <= 90) || (97 <= b <= 122)
}

/// A byte RFC 3986 leaves unescaped: a letter, a digit, `-`, `.`, `_` or
/// `~`.
pub open spec fn rfc3986_unreserved(b: u8) -> bool {
    is_alnum_byte(b) || b == 45 || b == 46 || b == 95 || b == 126
}

/// `%` and the byte in two upper-case hexadecimal digits.
pub open spec fn percent_byte(b: u8) -> Seq<char> {
    seq!['%', hex_digit(b as int / 16, true), hex_digit(b as int % 16, true)]
}

/// RFC 3986 percent-encoding of bytes.
pub open spec fn rfc3986_text(bytes: Seq<u8>) -> Seq<char>
    decreases bytes.len(),
{
    if bytes.len() == 0 {
        Seq::<char>::empty()
    } else {
        rfc3986_text(bytes.drop_last()) + if rfc3986_unreserved(bytes.last()) {
            seq![bytes.last() as char]
        } else {
            percent_byte(bytes.last())
        }
    }
}

fn hex_digit_char(d: u8, upper: bool) -> (c: char)
    requires
        d < 16,
    ensures
        c == hex_digit(d as int, upper),
{
    if d < 10 {
        (48 + d) as char
    } else if upper {
        (55 + d) as char
    } else {
        (87 + d) as char
    }
}

/// Percent-encodes the UTF-8 bytes of a text as RFC 3986 asks: every byte
/// but letters, digits, `-`, `.`, `_` and `~` becomes `%XX`.
pub fn rfc3986_encode(s: &str) -> (r: String)
    ensures
        r@ == rfc3986_text(encode_utf8(s@)),
{
    let bytes = s.as_bytes();
    let ghost all = encode_utf8(s@);
    let mut r = String::new();
    let mut i: usize = 0;
    while i < bytes.len()
        invariant
            i <= bytes.len(),
            bytes@ == all,
            r@ == rfc3986_text(all.take(i as int)),
        decreases bytes.len() - i,
    {
        let b = bytes[i];
        assert(all.take(i + 1).drop_last() =~= all.take(i as int));
        assert(all.take(i + 1).last() == b);
        if (48 <= b && b <= 57) || (65 <= b && b <= 90) || (97 <= b && b <= 122) || b == 45 || b
            == 46 || b == 95 || b == 126 {
            push_char(&mut r, b as char);
        } else {
            push_char(&mut r, '%');
            push_char(&mut r, hex_digit_char(b / 16, true));
            push_char(&mut r, hex_digit_char(b % 16, true));
        }
        assert(r@ =~= rfc3986_text(all.take(i + 1)));
        i = i + 1;
    }
    assert(all.take(bytes.len() as int) =~= all);
    r
}

/// Whether `c` is a hexadecimal digit, in either case.
pub open spec fn is_hex_char(c: char) -> bool {
    (48 <= (c as int) <= 57) || (65 <= (c as int) <= 70) || (97 <= (c as int) <= 102)
}

/// The value of a hexadecimal digit.
pub open spec fn hex_value(c: char) -> int {
    if (c as int) <= 57 {
        (c as int) - 48
    } else if (c as int) <= 70 {
        (c as int) - 55
    } else {
        (c as int) - 87
    }
}

/// Percent-decoding: `%` and two hexadecimal digits stand for the byte they
/// spell; any other character stands for its own code.
pub open spec fn percent_decode(t: Seq<char>) -> Seq<u8>
    decreases t.len(),
{
    if t.len() == 0 {
        Seq::<u8>::empty()
    } else if t[0] == '%' && t.len() >= 3 && is_hex_char(t[1]) && is_hex_char(t[2]) {
        seq![(hex_value(t[1]) * 16 + hex_value(t[2])) as u8] + percent_decode(t.skip(3))
    } else {
        seq![(t[0] as int) as u8] + percent_decode(t.skip(1))
    }
}

proof fn lemma_decode_chunk(b: u8, rest: Seq<char>)
    ensures
        percent_decode(
            (if rfc3986_unreserved(b) {
                seq![b as char]
            } else {
                percent_byte(b)
            }) + rest,
        ) == seq![b] + percent_decode(rest),
{
    if rfc3986_unreserved(b) {
        let t = seq![b as char] + rest;
        assert(t[0] == b as char);
        assert((b as char) as int == b as int);
        assert(t.skip(1) =~= rest);
    } else {
        let t = percent_byte(b) + rest;
        let hi = b as int / 16;
        let lo = b as int % 16;
        assert(t[0] == '%');
        assert(t[1] == hex_digit(hi, true));
        assert(t[2] == hex_digit(lo, true));
        assert(is_hex_char(t[1]) && hex_value(t[1]) == hi);
        assert(is_hex_char(t[2]) && hex_value(t[2]) == lo);
        assert(hi * 16 + lo == b as int);
        assert(t.skip(3) =~= rest);
    }
}

proof fn lemma_decode_encoded(bytes: Seq<u8>, rest: Seq<char>)
    ensures
        percent_decode(rfc3986_text(bytes) + rest) == bytes + percent_decode(rest),
    decreases bytes.len(),
{
    if bytes.len() == 0 {
        assert(rfc3986_text(bytes) + rest =~= rest);
        assert(bytes + percent_decode(rest) =~= percent_decode(rest));
    } else {
        let init = bytes.drop_last();
        let b = bytes.last();
        let chunk = if rfc3986_unreserved(b) {
            seq![b as char]
        } else {
            percent_byte(b)
        };
        assert(rfc3986_text(bytes) == rfc3986_text(init) + chunk);
        assert(rfc3986_text(bytes) + rest =~= rfc3986_text(init) + (chunk + rest));
        lemma_decode_encoded(init, chunk + rest);
        lemma_decode_chunk(b, rest);
        assert(bytes =~= init + seq![b]);
        assert(init + (seq![b] + percent_decode(rest)) =~= bytes + percent_decode(rest));
    }
}

/// Percent-decoding an RFC 3986 encoding gives back the bytes encoded.
pub proof fn law_rfc3986_decodes(bytes: Seq<u8>)
    ensures
        percent_decode(rfc3986_text(bytes)) == bytes,
{
    lemma_decode_encoded(bytes, Seq::<char>::empty());
    assert(rfc3986_text(bytes) + Seq::<char>::empty() =~= rfc3986_text(bytes));
    assert(bytes + Seq::<u8>::empty() =~= bytes);
}

/// A byte form encoding leaves as it is: a letter, a digit, `*`, `-`, `.`
/// or `_`.
pub open spec fn form_kept(b: u8) -> bool {
    is_alnum_byte(b) || b == 42 || b == 45 || b == 46 || b == 95
}

/// `application/x-www-form-urlencoded` encoding of bytes: kept bytes as
/// they are, a space as `+`, every other byte as `%XX`.
pub open spec fn form_text(bytes: Seq<u8>) -> Seq<char>
    decreases bytes.len(),
{
    if bytes.len() == 0 {
        Seq::<char>::empty()
    } else {
        form_text(bytes.drop_last()) + if form_kept(bytes.last()) {
            seq![bytes.last() as char]
        } else if bytes.last() == 32 {
            seq!['+']
        } else {
            percent_byte(bytes.last())
        }
    }
}

/// Form-encodes the UTF-8 bytes of a text.
///
/// Calls `url::form_urlencoded::byte_serialize` and collects its pieces;
/// the contract claims it keeps letters, digits, `*`, `-`, `.` and `_`,
/// writes a space as `+` and every other byte as `%` and two upper-case
/// hexadecimal digits.
#[verifier::external_body]
pub(crate) fn form_urlencode(s: &str) -> (r: String)
    ensures
        r@ == form_text(encode_utf8(s@)),
{
    url::form_urlencoded::byte_serialize(s.as_bytes()).collect::<String>()
}

} // verus!
