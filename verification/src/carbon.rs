//! Builds the address at which a code viewer shows a piece of code.

use crate::text::{optional_str, push_str, string_of};
use vstd::prelude::*;
use vstd::utf8::encode_utf8;

verus! {

/// Whether the byte `b` is written as it is in a query parameter: an ASCII
/// letter, a digit, or one of `-`, `_`, `.`, `~`.
pub open spec fn unreserved(b: u8) -> bool {
    ||| 0x41 <= b <= 0x5A
    ||| 0x61 <= b <= 0x7A
    ||| 0x30 <= b <= 0x39
    ||| b == 0x2D
    ||| b == 0x5F
    ||| b == 0x2E
    ||| b == 0x7E
}

/// The upper-case hexadecimal digit of `n`; `0` where `n` is no digit's value.
pub open spec fn hex_digit_char(n: u8) -> char {
    if n < 10 {
        (0x30 + n) as char
    } else if n < 16 {
        (0x41 + (n - 10)) as char
    } else {
        '0'
    }
}

/// How one byte is written: itself if unreserved, else `%` and its two
/// hexadecimal digits.
pub open spec fn encoded_byte(b: u8) -> Seq<char> {
    if unreserved(b) {
        seq![b as char]
    } else {
        seq!['%', hex_digit_char(b / 16), hex_digit_char(b % 16)]
    }
}

/// The percent-encoding of a sequence of bytes.
pub open spec fn percent_encoded(bytes: Seq<u8>) -> Seq<char>
    decreases bytes.len(),
{
    if bytes.len() == 0 {
        Seq::empty()
    } else {
        percent_encoded(bytes.drop_last()) + encoded_byte(bytes.last())
    }
}

/// The viewer address for `code`: the code, percent-encoded in UTF-8, as the
/// parameter `code`, followed by the language as the parameter `l` if there is a
/// language and it is not empty.
pub open spec fn carbon_url_text(code: Seq<char>, language: Option<Seq<char>>) -> Seq<char> {
    let base = "https://carbon.now.sh/?code="@ + percent_encoded(encode_utf8(code));
    match language {
        Some(lang) => if lang.len() > 0 {
            base + "&l="@ + percent_encoded(encode_utf8(lang))
        } else {
            base
        },
        None => base,
    }
}

/// The upper-case hexadecimal digit of `n`.
pub fn hex_digit(n: u8) -> (c: char)
    ensures
        c == hex_digit_char(n),
{
    if n < 10 {
        (48u8 + n) as char
    } else if n < 16 {
        (65u8 + (n - 10)) as char
    } else {
        '0'
    }
}

/// Appends the percent-encoding of the UTF-8 bytes of `input` to `out`.
fn push_percent_encoded(out: &mut Vec<char>, input: &str)
    ensures
        final(out)@ == old(out)@ + percent_encoded(encode_utf8(input@)),
{
    let bytes = input.as_bytes();
    let mut i: usize = 0;
    while i < bytes.len()
        invariant
            i <= bytes.len(),
            bytes@ == encode_utf8(input@),
            out@ == old(out)@ + percent_encoded(bytes@.take(i as int)),
        decreases bytes.len() - i,
    {
        let b: u8 = bytes[i];
        assert(bytes@.take(i + 1).drop_last() == bytes@.take(i as int));
        if (0x41 <= b && b <= 0x5A) || (0x61 <= b && b <= 0x7A) || (0x30 <= b && b <= 0x39) || b
            == 0x2D || b == 0x5F || b == 0x2E || b == 0x7E {
            out.push(b as char);
        } else {
            out.push('%');
            out.push(hex_digit(b / 16));
            out.push(hex_digit(b % 16));
        }
        i += 1;
        assert(out@ =~= old(out)@ + percent_encoded(bytes@.take(i as int)));
    }
    assert(bytes@.take(i as int) == bytes@);
}

/// The percent-encoding of the UTF-8 bytes of `input`.
pub fn percent_encode(input: &str) -> (r: String)
    ensures
        r@ == percent_encoded(encode_utf8(input@)),
{
    let mut out: Vec<char> = Vec::new();
    push_percent_encoded(&mut out, input);
    string_of(&out)
}

/// The viewer address for `code`, written in `language` if one is given.
pub fn carbon_url(code: &str, language: Option<&str>) -> (r: String)
    ensures
        r@ == carbon_url_text(code@, optional_str(language)),
{
    let mut url: Vec<char> = Vec::new();
    push_str(&mut url, "https://carbon.now.sh/?code=");
    push_percent_encoded(&mut url, code);
    if let Some(lang) = language {
        if !lang.is_empty() {
            push_str(&mut url, "&l=");
            push_percent_encoded(&mut url, lang);
        }
    }
    string_of(&url)
}

} // verus!
