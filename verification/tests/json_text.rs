use spai::json::Json;

#[test]
fn strings_are_escaped() {
    assert_eq!(Json::Str("a\"b\\c\n".to_string()).to_text(), "\"a\\\"b\\\\c\\n\"");
    assert_eq!(Json::Str("\u{1}".to_string()).to_text(), "\"\\u0001\"");
    assert_eq!(Json::Str("é".to_string()).to_text(), "\"é\"");
}

#[test]
fn numbers_and_literals() {
    assert_eq!(Json::Int(-42).to_text(), "-42");
    assert_eq!(Json::UInt(7).to_text(), "7");
    assert_eq!(Json::Bool(false).to_text(), "false");
    assert_eq!(Json::Null.to_text(), "null");
}

#[test]
fn nested_values_keep_member_order() {
    let j = Json::Object(vec![
        ("z".to_string(), Json::Array(vec![Json::Int(1), Json::Null])),
        ("a".to_string(), Json::Object(vec![])),
    ]);
    assert_eq!(j.to_text(), "{\"z\":[1,null],\"a\":{}}");
    assert_eq!(j.get_str("z"), None);
}

#[test]
fn members_are_read_by_name() {
    let j = Json::Object(vec![
        ("name".to_string(), Json::Str("x".to_string())),
        ("n".to_string(), Json::UInt(3)),
    ]);
    assert_eq!(j.get_str("name"), Some("x".to_string()));
    assert_eq!(j.get_u64("n"), Some(3));
    assert_eq!(j.get_u64("name"), None);
    assert_eq!(Json::Null.get_str("name"), None);
}
