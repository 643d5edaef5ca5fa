use fui::fields::{encode, format_annotation, Field, FieldKind};
use fui::validators::{Answer, Validator};

fn compression() -> Field {
    Field::new("compression-type", FieldKind::Autocomplete, "gzip")
        .validator(Validator::Required)
        .validator(Validator::OneOf(vec!["gzip".to_string(), "bzip2".to_string()]))
        .help("Archive format")
}

#[test]
fn annotation_fills_the_label_up() {
    assert_eq!(format_annotation("label", "help"), "label               : help");
    assert_eq!(format_annotation("label", ""), "label               ");
    assert_eq!(format_annotation("", ""), "                    ");
    assert_eq!(format_annotation("", "h"), "                    : h");
    assert_eq!(format_annotation("12345678901234567890", "h"), "12345678901234567890: h");
    assert_eq!(format_annotation("123456789012345678901", "h"), "123456789012345678901: h");
    assert_eq!(format_annotation("a label that is long enough", ""), "a label that is long enough");
    assert_eq!(format_annotation("żółw", "ćma"), "żółw                : ćma");
    assert_eq!(format_annotation("label", "help"), format!("{:20}: {}", "label", "help"));
    assert_eq!(format_annotation("żółw", ""), format!("{:20}", "żółw"));
}

#[test]
fn field_keeps_what_it_was_built_with() {
    let field = compression();
    assert_eq!(field.get_label(), "compression-type");
    assert_eq!(field.get_help(), "Archive format");
    assert_eq!(field.get_initial(), "gzip");
    assert_eq!(field.get_value(), "gzip");
    assert_eq!(field.get_kind(), FieldKind::Autocomplete);
    assert_eq!(field.annotation(), "compression-type    : Archive format");
    assert!(!field.needs_disk());
    let plain = Field::new("name", FieldKind::Text, "");
    assert_eq!(plain.get_help(), "");
    assert_eq!(plain.get_value(), "");
}

#[test]
fn field_value_changes_and_initial_stays() {
    let mut field = compression();
    field.set_value("bzip2");
    assert_eq!(field.get_value(), "bzip2");
    assert_eq!(field.get_initial(), "gzip");
    let field = field.initial("none");
    assert_eq!(field.get_value(), "none");
    assert_eq!(field.get_initial(), "none");
}

#[test]
fn first_rejection_is_the_only_error() {
    let field = compression();
    assert_eq!(field.validate(""), Err(vec!["Field is required".to_string()]));
}

#[test]
fn later_rule_rejects_where_the_first_accepts() {
    let field = compression();
    assert_eq!(
        field.validate("zip"),
        Err(vec!["Value must be one of the allowed values".to_string()])
    );
    assert_eq!(field.validate("bzip2"), Ok(Answer::Text("bzip2".to_string())));
}

#[test]
fn rules_apply_in_the_order_of_the_field() {
    let field = Field::new("c", FieldKind::Text, "")
        .validator(Validator::OneOf(vec!["gzip".to_string()]))
        .validator(Validator::Required);
    assert_eq!(
        field.validate(""),
        Err(vec!["Value must be one of the allowed values".to_string()])
    );
}

#[test]
fn field_without_rules_takes_the_text() {
    let field = Field::new("name", FieldKind::Text, "");
    assert_eq!(field.validate(""), Ok(Answer::Text(String::new())));
    assert_eq!(field.validate("anything"), Ok(Answer::Text("anything".to_string())));
    let many = Field::new("files", FieldKind::Multiselect, "");
    assert_eq!(many.validate("a,b"), Ok(Answer::Text("a,b".to_string())));
}

#[test]
fn checkbox_reads_true_and_false() {
    let field = Field::new("verbose", FieldKind::Checkbox, "false");
    assert_eq!(field.validate("true"), Ok(Answer::Flag(true)));
    assert_eq!(field.validate("false"), Ok(Answer::Flag(false)));
    assert_eq!(field.validate("yes"), Err(vec!["Value must be true or false".to_string()]));
    assert_eq!(field.validate(""), Err(vec!["Value must be true or false".to_string()]));
    assert_eq!(encode(FieldKind::Checkbox, "true"), Ok(Answer::Flag(true)));
    assert_eq!(encode(FieldKind::Text, "true"), Ok(Answer::Text("true".to_string())));
    assert_eq!(encode(FieldKind::Autocomplete, "x"), Ok(Answer::Text("x".to_string())));
}

#[test]
fn checkbox_rules_come_before_the_reading() {
    let field = Field::new("verbose", FieldKind::Checkbox, "").validator(Validator::Required);
    assert_eq!(field.validate(""), Err(vec!["Field is required".to_string()]));
    assert_eq!(field.validate("maybe"), Err(vec!["Value must be true or false".to_string()]));
}

#[test]
fn path_rules_ask_the_disk() {
    let source = Field::new("archive-path", FieldKind::Autocomplete, "")
        .validator(Validator::Required)
        .validator(Validator::FileExists);
    assert!(source.needs_disk());
    assert_eq!(source.validate("src"), Ok(Answer::Text("src".to_string())));
    assert_eq!(source.validate("/missing-dir"), Err(vec!["Path does not exist".to_string()]));
    assert_eq!(source.validate(""), Err(vec!["Field is required".to_string()]));
    assert_eq!(source.check("anything", true), Ok(Answer::Text("anything".to_string())));
    assert_eq!(source.check("src", false), Err(vec!["Path does not exist".to_string()]));
    let target = Field::new("target", FieldKind::Autocomplete, "").validator(Validator::PathFree);
    assert_eq!(target.validate("src"), Err(vec!["Path is already used".to_string()]));
    assert_eq!(target.validate("/missing-dir"), Ok(Answer::Text("/missing-dir".to_string())));
}
