//! Maps ASCII letters to the Unicode "Mathematical Alphanumeric Symbols" that
//! stand for bold, italic and bold-italic text. Every other character is kept.

use crate::text::{chars_of, string_of};
use vstd::prelude::*;

verus! {

/// The style in which a run of text is written.
#[derive(Clone, Copy, Debug, PartialEq, Eq, Structural)]
pub enum TextStyle {
    Normal,
    Bold,
    Italic,
    BoldItalic,
}

/// `char::from_u32` gives the character with the given scalar value, and `None`
/// for a surrogate or a number beyond the last code point.
pub assume_specification[ char::from_u32 ](i: u32) -> (r: Option<char>)
    ensures
        r == if i <= 0xD7FF || (0xE000 <= i && i <= 0x10FFFF) {
            Some(i as char)
        } else {
            None::<char>
        },
;

/// Whether `c` is one of the 52 letters `A`-`Z`, `a`-`z`.
pub open spec fn ascii_letter(c: char) -> bool {
    ('A' <= c && c <= 'Z') || ('a' <= c && c <= 'z')
}

/// The code point that `A` is mapped to under `style`.
pub open spec fn upper_base(style: TextStyle) -> u32 {
    match style {
        TextStyle::Normal => 0x41,
        TextStyle::Bold => 0x1D400,
        TextStyle::Italic => 0x1D434,
        TextStyle::BoldItalic => 0x1D468,
    }
}

/// The code point that `a` is mapped to under `style`.
pub open spec fn lower_base(style: TextStyle) -> u32 {
    match style {
        TextStyle::Normal => 0x61,
        TextStyle::Bold => 0x1D41A,
        TextStyle::Italic => 0x1D44E,
        TextStyle::BoldItalic => 0x1D482,
    }
}

/// The character that stands for `c` under `style`: a letter moves to the style's
/// alphabet, keeping its place in it; any other character stays.
pub open spec fn styled_char(c: char, style: TextStyle) -> char {
    if 'A' <= c && c <= 'Z' {
        (upper_base(style) + (c as u32 - 0x41)) as char
    } else if 'a' <= c && c <= 'z' {
        (lower_base(style) + (c as u32 - 0x61)) as char
    } else {
        c
    }
}

/// `text` with each of its characters mapped under `style`.
pub open spec fn styled(text: Seq<char>, style: TextStyle) -> Seq<char> {
    text.map_values(|c: char| styled_char(c, style))
}

/// The code points that the letters are mapped to under `style`.
pub open spec fn styled_letters(style: TextStyle) -> Set<int> {
    Set::new(|x: int| exists|c: char| ascii_letter(c) && #[trigger] styled_char(c, style) as int == x)
}

/// The executable base code points of `style`: upper case first, lower case second.
pub fn style_bases(style: TextStyle) -> (r: (u32, u32))
    ensures
        r.0 == upper_base(style),
        r.1 == lower_base(style),
{
    match style {
        TextStyle::Normal => (0x41, 0x61),
        TextStyle::Bold => (0x1D400, 0x1D41A),
        TextStyle::Italic => (0x1D434, 0x1D44E),
        TextStyle::BoldItalic => (0x1D468, 0x1D482),
    }
}

/// Maps one character under `style`.
pub fn style_char(c: char, style: TextStyle) -> (r: char)
    ensures
        r == styled_char(c, style),
{
    let (upper, lower) = style_bases(style);
    let mapped = if 'A' <= c && c <= 'Z' {
        char::from_u32(upper + (c as u32 - 0x41))
    } else if 'a' <= c && c <= 'z' {
        char::from_u32(lower + (c as u32 - 0x61))
    } else {
        None
    };
    match mapped {
        Some(m) => m,
        None => c,
    }
}

/// Maps every character of `text` under `style`.
pub fn style_chars(text: &Vec<char>, style: TextStyle) -> (r: Vec<char>)
    ensures
        r@ == styled(text@, style),
{
    let mut r: Vec<char> = Vec::new();
    let mut i: usize = 0;
    while i < text.len()
        invariant
            i <= text.len(),
            r@ == styled(text@.take(i as int), style),
        decreases text.len() - i,
    {
        r.push(style_char(text[i], style));
        i += 1;
        assert(r@ =~= styled(text@.take(i as int), style));
    }
    assert(text@.take(i as int) == text@);
    r
}

/// Writes the letters of `text` in mathematical bold.
pub fn to_bold(text: &str) -> (r: String)
    ensures
        r@ == styled(text@, TextStyle::Bold),
{
    string_of(&style_chars(&chars_of(text), TextStyle::Bold))
}

/// Writes the letters of `text` in mathematical italic.
pub fn to_italic(text: &str) -> (r: String)
    ensures
        r@ == styled(text@, TextStyle::Italic),
{
    string_of(&style_chars(&chars_of(text), TextStyle::Italic))
}

/// Writes the letters of `text` in mathematical bold italic.
pub fn to_bold_italic(text: &str) -> (r: String)
    ensures
        r@ == styled(text@, TextStyle::BoldItalic),
{
    string_of(&style_chars(&chars_of(text), TextStyle::BoldItalic))
}

/// The normal style maps every character to itself.
pub proof fn lemma_normal_is_identity(text: Seq<char>)
    ensures
        styled(text, TextStyle::Normal) == text,
{
    assert(styled(text, TextStyle::Normal) =~= text);
}

/// Under every style, a character that is not an ASCII letter (a digit, a
/// punctuation mark, a letter of another script, an emoji) is mapped to itself.
pub proof fn lemma_non_letters_are_kept(c: char, style: TextStyle)
    requires
        !ascii_letter(c),
    ensures
        styled_char(c, style) == c,
{
}

/// Under every style the letters are mapped one to one: two
/// letters with the same image are the same letter.
pub proof fn lemma_styled_letters_injective(c1: char, c2: char, style: TextStyle)
    requires
        ascii_letter(c1),
        ascii_letter(c2),
        styled_char(c1, style) == styled_char(c2, style),
    ensures
        c1 == c2,
{
}

/// Under every style but the normal one, the images of the letters are exactly
/// the 52 code points that begin at the style's upper-case base, and none of them
/// is an ASCII character. For bold they run from U+1D400 to U+1D433.
pub proof fn lemma_styled_letters(style: TextStyle)
    requires
        style != TextStyle::Normal,
    ensures
        styled_letters(style) == vstd::set_lib::set_int_range(
            upper_base(style) as int,
            upper_base(style) + 52,
        ),
        styled_letters(style).finite(),
        styled_letters(style).len() == 52,
        forall|x: int| styled_letters(style).contains(x) ==> x > 0x7F,
{
    let image = styled_letters(style);
    let base = upper_base(style) as int;
    let range = vstd::set_lib::set_int_range(base, base + 52);
    assert(lower_base(style) == base + 26);
    assert forall|x: int| range.contains(x) implies image.contains(x) by {
        let c = if x < base + 26 {
            (x - base + 0x41) as char
        } else {
            (x - base - 26 + 0x61) as char
        };
        assert(ascii_letter(c));
        assert(styled_char(c, style) as int == x);
    }
    assert(image =~= range);
    vstd::set_lib::lemma_int_range(base, base + 52);
}

} // verus!
