use mdtolinkedin::unicode::{style_char, to_bold, to_bold_italic, to_italic, TextStyle};

#[test]
fn test_bold_uppercase() {
    assert_eq!(to_bold("ABC"), "\u{1D400}\u{1D401}\u{1D402}");
}

#[test]
fn test_bold_lowercase() {
    assert_eq!(to_bold("abc"), "\u{1D41A}\u{1D41B}\u{1D41C}");
}

#[test]
fn test_bold_mixed() {
    assert_eq!(to_bold("Hello World!"), "\u{1D407}\u{1D41E}\u{1D425}\u{1D425}\u{1D428} \u{1D416}\u{1D428}\u{1D42B}\u{1D425}\u{1D41D}!");
}

#[test]
fn test_bold_numbers_unchanged() {
    assert_eq!(to_bold("Test123"), "\u{1D413}\u{1D41E}\u{1D42C}\u{1D42D}123");
}

#[test]
fn test_italic_lowercase() {
    assert_eq!(to_italic("hello"), "\u{1D455}\u{1D452}\u{1D459}\u{1D459}\u{1D45C}");
}

#[test]
fn test_italic_uppercase() {
    assert_eq!(to_italic("HELLO"), "\u{1D43B}\u{1D438}\u{1D43F}\u{1D43F}\u{1D442}");
}

#[test]
fn unicode_test_preserves_emoji() {
    assert_eq!(to_bold("Hello \u{1F680}"), "\u{1D407}\u{1D41E}\u{1D425}\u{1D425}\u{1D428} \u{1F680}");
}

#[test]
fn test_preserves_punctuation() {
    assert_eq!(to_bold("Hello, World!"), "\u{1D407}\u{1D41E}\u{1D425}\u{1D425}\u{1D428}, \u{1D416}\u{1D428}\u{1D42B}\u{1D425}\u{1D41D}!");
}

#[test]
fn style_bases_are_the_documented_code_points() {
    assert_eq!(to_bold("A"), "\u{1D400}");
    assert_eq!(to_bold("a"), "\u{1D41A}");
    assert_eq!(to_bold("Z"), "\u{1D419}");
    assert_eq!(to_bold("z"), "\u{1D433}");
    assert_eq!(to_italic("A"), "\u{1D434}");
    assert_eq!(to_italic("a"), "\u{1D44E}");
    assert_eq!(to_italic("z"), "\u{1D467}");
    assert_eq!(to_bold_italic("A"), "\u{1D468}");
    assert_eq!(to_bold_italic("a"), "\u{1D482}");
    assert_eq!(to_bold_italic("z"), "\u{1D49B}");
}

#[test]
fn bold_italic_maps_a_word() {
    assert_eq!(to_bold_italic("hi"), "\u{1D489}\u{1D48A}");
}

#[test]
fn bold_maps_the_letters_one_to_one_onto_52_code_points() {
    let mut images: Vec<u32> = Vec::new();
    for c in ('A'..='Z').chain('a'..='z') {
        let image = style_char(c, TextStyle::Bold);
        assert!(!image.is_ascii());
        assert!(!images.contains(&(image as u32)));
        images.push(image as u32);
    }
    images.sort();
    assert_eq!(images.len(), 52);
    assert_eq!(images[0], 0x1D400);
    assert_eq!(images[51], 0x1D433);
}

#[test]
fn every_style_keeps_what_is_not_an_ascii_letter() {
    let styles = [TextStyle::Normal, TextStyle::Bold, TextStyle::Italic, TextStyle::BoldItalic];
    let kept = ['0', '9', '!', ' ', '\n', '@', '[', '`', '{', '\u{E9}', '\u{416}', '\u{4E2D}', '\u{1F680}', '\u{1D400}'];
    for style in styles {
        for c in kept {
            assert_eq!(style_char(c, style), c);
        }
    }
}

#[test]
fn normal_style_keeps_letters() {
    for c in ('A'..='Z').chain('a'..='z') {
        assert_eq!(style_char(c, TextStyle::Normal), c);
    }
}

#[test]
fn mapping_an_empty_text_gives_an_empty_text() {
    assert_eq!(to_bold(""), "");
    assert_eq!(to_italic(""), "");
    assert_eq!(to_bold_italic(""), "");
}
