use fui::validators::{Answer, Validator};

fn text(s: &str) -> Result<Answer, String> {
    Ok(Answer::Text(s.to_string()))
}

fn refused(message: &str) -> Result<Answer, String> {
    Err(message.to_string())
}

#[test]
fn required_refuses_the_empty_text() {
    assert_eq!(Validator::Required.validate(""), refused("Field is required"));
    assert_eq!(Validator::Required.validate("x"), text("x"));
    assert_eq!(Validator::Required.validate(" "), text(" "));
    assert_eq!(Validator::Required.check("", true), refused("Field is required"));
}

#[test]
fn one_of_refuses_what_is_not_listed() {
    let rule = Validator::OneOf(vec!["gzip".to_string(), "bzip2".to_string()]);
    assert_eq!(rule.validate("gzip"), text("gzip"));
    assert_eq!(rule.validate("bzip2"), text("bzip2"));
    assert_eq!(rule.validate("zip"), refused("Value must be one of the allowed values"));
    assert_eq!(rule.validate(""), refused("Value must be one of the allowed values"));
    assert_eq!(rule.validate("GZIP"), refused("Value must be one of the allowed values"));
    let none = Validator::OneOf(Vec::new());
    assert_eq!(none.validate("gzip"), refused("Value must be one of the allowed values"));
}

#[test]
fn file_exists_goes_by_the_disk() {
    assert_eq!(Validator::FileExists.check("a", true), text("a"));
    assert_eq!(Validator::FileExists.check("a", false), refused("Path does not exist"));
    assert_eq!(Validator::FileExists.validate("src"), text("src"));
    assert_eq!(Validator::FileExists.validate("tests/validators.rs"), text("tests/validators.rs"));
    assert_eq!(Validator::FileExists.validate("/missing-dir"), refused("Path does not exist"));
    assert_eq!(Validator::FileExists.validate(""), refused("Path does not exist"));
}

#[test]
fn path_free_goes_by_the_disk() {
    assert_eq!(Validator::PathFree.check("a", false), text("a"));
    assert_eq!(Validator::PathFree.check("a", true), refused("Path is already used"));
    assert_eq!(Validator::PathFree.validate("/missing-dir"), text("/missing-dir"));
    assert_eq!(Validator::PathFree.validate("src"), refused("Path is already used"));
}

#[test]
fn only_the_path_rules_need_the_disk() {
    assert!(!Validator::Required.needs_disk());
    assert!(!Validator::OneOf(vec!["a".to_string()]).needs_disk());
    assert!(Validator::FileExists.needs_disk());
    assert!(Validator::PathFree.needs_disk());
}
