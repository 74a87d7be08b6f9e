use cargo_sponsor::text::same_text;

#[test]
fn same_text_compares_characters() {
    assert!(same_text("github.com", "github.com"));
    assert!(same_text("", ""));
    assert!(!same_text("github.com", "github.co"));
    assert!(!same_text("github.com", "GitHub.com"));
    assert!(!same_text("a", ""));
}
