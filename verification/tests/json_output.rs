use mdtolinkedin::json_output::{format_json, json_escape};

#[test]
fn test_json_escape_quotes() {
    let escaped = json_escape("a\"b");
    assert_eq!(escaped, "a\\\"b");
}

#[test]
fn json_escape_escapes_the_five_characters_and_no_other() {
    assert_eq!(json_escape("\\"), "\\\\");
    assert_eq!(json_escape("\n"), "\\n");
    assert_eq!(json_escape("\r"), "\\r");
    assert_eq!(json_escape("\t"), "\\t");
    assert_eq!(json_escape("\""), "\\\"");
    assert_eq!(json_escape("a/b \u{1D41B}\u{8}\u{1F680}"), "a/b \u{1D41B}\u{8}\u{1F680}");
    assert_eq!(json_escape(""), "");
}

#[test]
fn format_json_writes_the_four_fields() {
    assert_eq!(
        format_json("hi \"x\"\n", 7, 3000),
        "{\"text\":\"hi \\\"x\\\"\\n\",\"char_count\":7,\"limit\":3000,\"limit_exceeded\":false}"
    );
    assert_eq!(
        format_json("", 0, 0),
        "{\"text\":\"\",\"char_count\":0,\"limit\":0,\"limit_exceeded\":false}"
    );
}

#[test]
fn limit_exceeded_is_true_exactly_above_the_limit() {
    let pairs = [(0usize, 0usize), (0, 1), (1, 0), (10, 10), (11, 10), (3000, 3000), (3001, 3000), (5, usize::MAX), (usize::MAX, 5)];
    for (count, limit) in pairs {
        let json = format_json("text", count, limit);
        assert_eq!(json.ends_with("\"limit_exceeded\":true}"), count > limit);
        assert_eq!(json.ends_with("\"limit_exceeded\":false}"), count <= limit);
        assert!(json.contains(&format!("\"char_count\":{},\"limit\":{},", count, limit)));
    }
}
