use fui::text::{
    chars_of, contains_chars, contains_text, contains_uppercase, same_text, string_of,
};

#[test]
fn chars_and_strings_go_both_ways() {
    for s in ["", "a", "hello world", "żółw", "a/b*c", "日本語 text"] {
        let chars = chars_of(s);
        assert_eq!(chars, s.chars().collect::<Vec<char>>());
        assert_eq!(string_of(&chars), s);
    }
}

#[test]
fn same_text_compares_texts() {
    assert!(same_text("", ""));
    assert!(same_text("abc", "abc"));
    assert!(!same_text("abc", "abd"));
    assert!(!same_text("abc", "ab"));
    assert!(!same_text("", "a"));
    assert!(same_text("żółw", "żółw"));
}

#[test]
fn contains_text_finds_infixes() {
    assert!(contains_text("hello", ""));
    assert!(contains_text("", ""));
    assert!(!contains_text("", "a"));
    assert!(contains_text("hello", "hello"));
    assert!(contains_text("hello", "he"));
    assert!(contains_text("hello", "lo"));
    assert!(contains_text("hello", "ell"));
    assert!(!contains_text("hello", "elo"));
    assert!(!contains_text("hello", "hello!"));
    assert!(contains_text("aab", "ab"));
    assert!(contains_text("zażółć", "żół"));
    assert!(contains_chars(&chars_of("abc"), &chars_of("bc")));
    assert!(!contains_chars(&chars_of("abc"), &chars_of("cb")));
}

#[test]
fn contains_uppercase_looks_at_every_character() {
    assert!(!contains_uppercase(""));
    assert!(!contains_uppercase("abc/def.txt"));
    assert!(!contains_uppercase("123 *~"));
    assert!(contains_uppercase("Abc"));
    assert!(contains_uppercase("abC"));
    assert!(contains_uppercase("aBc"));
    assert!(contains_uppercase("é É"));
    assert!(!contains_uppercase("é"));
}
