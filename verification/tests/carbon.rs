use mdtolinkedin::carbon::{carbon_url, hex_digit, percent_encode};

#[test]
fn test_carbon_url_basic() {
    let url = carbon_url("fn main() {}", Some("rust"));
    assert!(url.contains("https://carbon.now.sh/?code="));
    assert!(url.contains("&l=rust"));
}

#[test]
fn test_percent_encode_space() {
    let encoded = percent_encode("a b");
    assert_eq!(encoded, "a%20b");
}

#[test]
fn carbon_url_is_the_encoded_code_and_language() {
    assert_eq!(
        carbon_url("fn main() {}", Some("rust")),
        "https://carbon.now.sh/?code=fn%20main%28%29%20%7B%7D&l=rust"
    );
    assert_eq!(carbon_url("a", Some("c++")), "https://carbon.now.sh/?code=a&l=c%2B%2B");
}

#[test]
fn carbon_url_has_no_language_parameter_without_a_language() {
    assert_eq!(carbon_url("x=1", None), "https://carbon.now.sh/?code=x%3D1");
    assert_eq!(carbon_url("x=1", Some("")), "https://carbon.now.sh/?code=x%3D1");
    assert_eq!(carbon_url("", None), "https://carbon.now.sh/?code=");
}

#[test]
fn percent_encode_keeps_the_unreserved_characters() {
    let unreserved = "ABCXYZabcxyz0123456789-_.~";
    assert_eq!(percent_encode(unreserved), unreserved);
}

#[test]
fn percent_encode_writes_upper_case_hex_for_every_other_byte() {
    assert_eq!(percent_encode("\n"), "%0A");
    assert_eq!(percent_encode("/?#&=+%"), "%2F%3F%23%26%3D%2B%25");
    assert_eq!(percent_encode("\u{E9}"), "%C3%A9");
    assert_eq!(percent_encode("\u{1F680}"), "%F0%9F%9A%80");
    assert_eq!(percent_encode("\u{7F}@[`{"), "%7F%40%5B%60%7B");
    assert_eq!(percent_encode(""), "");
}

#[test]
fn hex_digit_is_upper_case_and_zero_beyond_fifteen() {
    let digits: String = (0u8..16).map(hex_digit).collect();
    assert_eq!(digits, "0123456789ABCDEF");
    assert_eq!(hex_digit(16), '0');
    assert_eq!(hex_digit(255), '0');
}
