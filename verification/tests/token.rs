use cargo_sponsor::token::{non_empty_token, token_from_helper_output};

#[test]
fn helper_output_is_trimmed() {
    assert_eq!(token_from_helper_output("  ghp_abc123\n"), Some("ghp_abc123".to_string()));
    assert_eq!(token_from_helper_output("ghp_abc123"), Some("ghp_abc123".to_string()));
    assert_eq!(token_from_helper_output("\tgho x \r\n"), Some("gho x".to_string()));
}

#[test]
fn blank_helper_output_is_no_token() {
    assert_eq!(token_from_helper_output(""), None);
    assert_eq!(token_from_helper_output("   \n\t"), None);
}

#[test]
fn empty_text_is_no_token() {
    assert_eq!(non_empty_token(""), None);
    assert_eq!(non_empty_token("t"), Some("t".to_string()));
    assert_eq!(non_empty_token(" "), Some(" ".to_string()));
}
