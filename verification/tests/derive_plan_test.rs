use pkl_bindgen::derive_plan::{enum_tag_field, field_read, field_settings, variant_tag_value, FieldRead, PklAttr};

#[test]
fn test_field_settings_default_name_is_camel_case() {
    let s = field_settings("db_host", &vec![]);
    assert_eq!(s.pkl_name, "dbHost");
    assert!(!s.has_default && !s.skip && !s.flatten);
    assert_eq!(field_read(&s), FieldRead::Required("dbHost".to_string()));
}

#[test]
fn test_field_settings_rename_overrides_camel_case() {
    let s = field_settings("db_host", &vec![PklAttr::Rename("host".to_string()), PklAttr::Default]);
    assert_eq!(s.pkl_name, "host");
    assert!(s.has_default);
    assert_eq!(field_read(&s), FieldRead::OrDefault("host".to_string()));
    let s = field_settings("x", &vec![PklAttr::Rename("a".to_string()), PklAttr::Other, PklAttr::Rename("b".to_string())]);
    assert_eq!(s.pkl_name, "b");
}

#[test]
fn test_field_read_precedence() {
    let s = field_settings("extra", &vec![PklAttr::Flatten, PklAttr::Default]);
    assert_eq!(field_read(&s), FieldRead::Flattened);
    let s = field_settings("computed", &vec![PklAttr::Flatten, PklAttr::Skip]);
    assert_eq!(field_read(&s), FieldRead::Skipped);
}

#[test]
fn test_enum_tags() {
    assert_eq!(enum_tag_field(&vec![]), None);
    assert_eq!(
        enum_tag_field(&vec![PklAttr::Other, PklAttr::Tag("type".to_string()), PklAttr::Tag("kind".to_string())]),
        Some("type".to_string())
    );
    assert_eq!(variant_tag_value("Circle", &vec![]), "Circle");
    assert_eq!(variant_tag_value("big_circle", &vec![]), "bigCircle");
    assert_eq!(variant_tag_value("Rect", &vec![PklAttr::Tag("rect".to_string())]), "rect");
    assert_eq!(
        variant_tag_value("Rect", &vec![PklAttr::Tag("a".to_string()), PklAttr::Tag("b".to_string())]),
        "b"
    );
}
