use mdtolinkedin::cli::{
    char_count, code_block_mode, format_output, warn_limit, warning_due, warning_message,
    CodeBlocksArg, OutputFormat,
};
use mdtolinkedin::converter::{convert, CodeBlockMode, ConvertOptions};

#[test]
fn named_mode_is_chosen() {
    assert_eq!(code_block_mode(Some(CodeBlocksArg::Omit), false), CodeBlockMode::Omit);
    assert_eq!(code_block_mode(Some(CodeBlocksArg::Text), false), CodeBlockMode::Text);
    assert_eq!(code_block_mode(Some(CodeBlocksArg::Carbon), false), CodeBlockMode::Carbon);
    assert_eq!(code_block_mode(Some(CodeBlocksArg::Image), false), CodeBlockMode::Image);
}

#[test]
fn older_flag_means_carbon_and_default_is_omit() {
    assert_eq!(code_block_mode(None, true), CodeBlockMode::Carbon);
    assert_eq!(code_block_mode(None, false), CodeBlockMode::Omit);
}

#[test]
fn limit_defaults_to_3000() {
    assert_eq!(warn_limit(None), 3000);
    assert_eq!(warn_limit(Some(10)), 10);
    assert_eq!(warn_limit(Some(0)), 0);
}

#[test]
fn characters_are_counted_not_bytes() {
    assert_eq!(char_count(""), 0);
    assert_eq!(char_count("abc"), 3);
    assert_eq!(char_count("\u{1D41B}\u{1F680}\u{E9}"), 3);
}

#[test]
fn warning_is_due_above_the_limit_unless_switched_off() {
    assert!(warning_due(3001, 3000, false));
    assert!(!warning_due(3000, 3000, false));
    assert!(!warning_due(3001, 3000, true));
    assert!(warning_due(11, 10, false));
}

#[test]
fn warning_names_the_count_and_the_limit() {
    let message = warning_message(3001, 3000);
    assert_eq!(message, "\u{26A0}\u{FE0F}  Warning: Output is 3001 characters (limit: 3000)");
    assert!(warning_message(11, 10).contains("limit: 10"));
}

#[test]
fn text_output_is_written_as_it_is() {
    assert_eq!(format_output("Hello", OutputFormat::Text, false, 3000), "Hello");
    assert_eq!(format_output("", OutputFormat::Text, false, 3000), "");
}

#[test]
fn untrimmed_text_output_ends_with_a_newline() {
    assert_eq!(format_output("Hello", OutputFormat::Text, true, 3000), "Hello\n");
    assert_eq!(format_output("Hello\n\n", OutputFormat::Text, true, 3000), "Hello\n\n");
    assert_eq!(format_output("", OutputFormat::Text, true, 3000), "\n");
}

#[test]
fn json_output_reports_the_character_count() {
    assert_eq!(
        format_output("\u{1D41B}\u{1D428}\u{1D425}\u{1D41D} text", OutputFormat::Json, false, 3000),
        "{\"text\":\"\u{1D41B}\u{1D428}\u{1D425}\u{1D41D} text\",\"char_count\":9,\"limit\":3000,\"limit_exceeded\":false}"
    );
    assert_eq!(
        format_output("abc", OutputFormat::Json, true, 2),
        "{\"text\":\"abc\",\"char_count\":3,\"limit\":2,\"limit_exceeded\":true}"
    );
}

#[test]
fn converted_text_goes_into_the_json_object() {
    let converted = convert("**bold** text", &ConvertOptions::default());
    let json = format_output(&converted, OutputFormat::Json, false, 3000);
    assert!(json.contains("\"text\""));
    assert!(json.contains("\"char_count\""));
    assert!(json.contains("\"limit\""));
    assert!(json.contains("\"limit_exceeded\""));
    assert!(json.contains("\u{1D41B}\u{1D428}\u{1D425}\u{1D41D}"));
}
