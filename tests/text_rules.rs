use jenkins_hooks::text::{decimal_text, is_blank, same_text, strip_heads};

#[test]
fn heads_prefix_is_stripped() {
    assert_eq!(strip_heads("refs/heads/feature/x"), "feature/x");
    assert_eq!(strip_heads("refs/heads/main"), "main");
}

#[test]
fn ref_without_prefix_is_kept() {
    assert_eq!(strip_heads("custom-ref"), "custom-ref");
    assert_eq!(strip_heads("refs/tags/v1"), "refs/tags/v1");
    assert_eq!(strip_heads("refs/heads"), "refs/heads");
    assert_eq!(strip_heads(""), "");
}

#[test]
fn heads_prefix_is_stripped_once() {
    assert_eq!(strip_heads("refs/heads/refs/heads/x"), "refs/heads/x");
    assert_eq!(strip_heads("refs/heads/"), "");
}

#[test]
fn non_ascii_ref_is_handled() {
    assert_eq!(strip_heads("refs/heads/fé/ü"), "fé/ü");
}

#[test]
fn blank_text_detection() {
    assert!(is_blank(""));
    assert!(is_blank(" \t\r\n\u{3000}\u{a0}"));
    assert!(!is_blank(" a "));
    assert!(!is_blank("\u{200b}"));
}

#[test]
fn decimal_digits() {
    assert_eq!(decimal_text(0), "0");
    assert_eq!(decimal_text(7), "7");
    assert_eq!(decimal_text(10), "10");
    assert_eq!(decimal_text(8080), "8080");
    assert_eq!(decimal_text(u32::MAX), "4294967295");
}

#[test]
fn text_comparison() {
    assert!(same_text("push", "push"));
    assert!(!same_text("push", "Push"));
    assert!(!same_text("push", "push "));
}
