use mdtolinkedin::code_image::{
    escape_xml, expand_tabs, hex_color, image_stem, line_tokens, pick_theme, sanitize_filename, svg_open,
    svg_text, token_columns, CodeImageError, CodeImageErrorKind, Span, Token,
};

fn span(red: u8, green: u8, blue: u8, text: &str) -> Span {
    Span { red, green, blue, text: text.to_string() }
}

fn token(color: &str, text: &str) -> Token {
    Token { color: color.to_string(), text: text.to_string() }
}

#[test]
fn sanitize_keeps_letters_digits_hyphen_and_underscore() {
    assert_eq!(sanitize_filename("rust"), "rust");
    assert_eq!(sanitize_filename("Objective-C_2"), "Objective-C_2");
}

#[test]
fn sanitize_maps_space_and_dot_and_drops_the_rest() {
    assert_eq!(sanitize_filename("c sharp"), "c_sharp");
    assert_eq!(sanitize_filename("file.rs"), "file_rs");
    assert_eq!(sanitize_filename("c++"), "c");
    assert_eq!(sanitize_filename("a/b\\c:d"), "abcd");
    assert_eq!(sanitize_filename("\u{E9}t\u{E9}"), "t");
}

#[test]
fn sanitize_falls_back_to_code() {
    assert_eq!(sanitize_filename(""), "code");
    assert_eq!(sanitize_filename("+++"), "code");
    assert_eq!(sanitize_filename("\u{1F680}"), "code");
    assert_eq!(sanitize_filename("."), "_");
}

#[test]
fn image_stem_counts_from_one_in_three_digits() {
    assert_eq!(image_stem(Some("rust"), 0), "rust-001");
    assert_eq!(image_stem(Some("rust"), 41), "rust-042");
    assert_eq!(image_stem(Some("c++"), 998), "c-999");
    assert_eq!(image_stem(Some("py"), 999), "py-1000");
    assert_eq!(image_stem(None, 0), "code-001");
    assert_eq!(image_stem(Some(""), 1), "code-002");
}

#[test]
fn tabs_expand_to_the_next_stop() {
    assert_eq!(expand_tabs("\tx", 4), "    x");
    assert_eq!(expand_tabs("a\tx", 4), "a   x");
    assert_eq!(expand_tabs("abc\tx", 4), "abc x");
    assert_eq!(expand_tabs("abcd\tx", 4), "abcd    x");
    assert_eq!(expand_tabs("\t\t", 4), "        ");
    assert_eq!(expand_tabs("a\tb\tc", 2), "a b c");
    assert_eq!(expand_tabs("no tabs", 4), "no tabs");
    assert_eq!(expand_tabs("", 4), "");
    assert_eq!(expand_tabs("\t", 1), " ");
}

#[test]
fn markup_escapes_five_characters() {
    assert_eq!(escape_xml("a < b && c > \"d\" 'e'"), "a &lt; b &amp;&amp; c &gt; &quot;d&quot; &apos;e&apos;");
    assert_eq!(escape_xml("plain \u{1F680}"), "plain \u{1F680}");
    assert_eq!(escape_xml(""), "");
}

#[test]
fn colours_are_six_upper_case_hex_digits() {
    assert_eq!(hex_color(0, 0, 0), "#000000");
    assert_eq!(hex_color(255, 255, 255), "#FFFFFF");
    assert_eq!(hex_color(0x1A, 0xB2, 0x0C), "#1AB20C");
}

#[test]
fn each_failure_has_its_own_message() {
    let detail = || Some("denied".to_string());
    assert_eq!(CodeImageError::new(CodeImageErrorKind::CreateDir, detail()).message(), "create output dir failed: denied");
    assert_eq!(CodeImageError::new(CodeImageErrorKind::Highlight, detail()).message(), "highlight failed: denied");
    assert_eq!(CodeImageError::new(CodeImageErrorKind::WriteSvg, detail()).message(), "write svg failed: denied");
    assert_eq!(CodeImageError::new(CodeImageErrorKind::LoadFont, detail()).message(), "load font failed: denied");
    assert_eq!(CodeImageError::new(CodeImageErrorKind::ParseSvg, detail()).message(), "parse svg failed: denied");
    assert_eq!(CodeImageError::new(CodeImageErrorKind::SavePng, detail()).message(), "save png failed: denied");
    assert_eq!(CodeImageError::new(CodeImageErrorKind::CreatePixmap, None).message(), "create pixmap failed");
    assert_eq!(CodeImageError::new(CodeImageErrorKind::NoTheme, None).message(), "no themes available");
}

#[test]
fn line_tokens_drop_line_ends_and_expand_tabs() {
    let spans = vec![
        span(0, 0, 255, "fn"),
        span(1, 2, 3, " "),
        span(255, 0, 0, "\tmain() {\n"),
        span(9, 9, 9, "\n\n"),
        span(9, 9, 9, ""),
    ];
    assert_eq!(
        line_tokens(&spans),
        vec![token("#0000FF", "fn"), token("#010203", " "), token("#FF0000", "    main() {")]
    );
    assert_eq!(line_tokens(&Vec::new()), Vec::<Token>::new());
}

#[test]
fn token_columns_count_characters() {
    let tokens = vec![token("#000000", "ab"), token("#000000", "\u{1F680}\u{E9}c")];
    assert_eq!(token_columns(&tokens), 5);
    assert_eq!(token_columns(&Vec::new()), 0);
}

#[test]
fn markup_opens_with_the_size_and_the_background() {
    assert_eq!(
        svg_open(120, 70, "#ffffff"),
        "<svg xmlns=\"http://www.w3.org/2000/svg\" width=\"120\" height=\"70\" viewBox=\"0 0 120 70\"><rect width=\"100%\" height=\"100%\" fill=\"#ffffff\" rx=\"6\" />"
    );
}

#[test]
fn markup_of_a_token_escapes_its_text() {
    assert_eq!(
        svg_text("24.0", "40.0", &token("#FF0000", "a < b"), "monospace", "16"),
        "<text x=\"24.0\" y=\"40.0\" fill=\"#FF0000\" font-family=\"monospace\" font-size=\"16\" xml:space=\"preserve\">a &lt; b</text>"
    );
}

#[test]
fn named_theme_is_picked_where_it_is_available() {
    let themes = vec!["Solarized (dark)".to_string(), "InspiredGitHub".to_string(), "base16".to_string()];
    assert_eq!(pick_theme(&themes, "InspiredGitHub"), Ok(1));
    assert_eq!(pick_theme(&themes, "base16"), Ok(2));
    let twice = vec!["a".to_string(), "b".to_string(), "b".to_string()];
    assert_eq!(pick_theme(&twice, "b"), Ok(1));
}

#[test]
fn first_theme_is_picked_where_the_named_one_is_missing() {
    let themes = vec!["Solarized (dark)".to_string(), "InspiredGitHub".to_string()];
    assert_eq!(pick_theme(&themes, "Unknown"), Ok(0));
    assert_eq!(pick_theme(&themes, ""), Ok(0));
}

#[test]
fn no_theme_can_be_picked_from_none() {
    let error = pick_theme(&Vec::new(), "InspiredGitHub").unwrap_err();
    assert_eq!(error.kind, CodeImageErrorKind::NoTheme);
    assert_eq!(error.detail, None);
    assert_eq!(error.message(), "no themes available");
}
