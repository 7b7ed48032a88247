//! JSON values.
use g3::json::Json;

fn text(s: &str) -> Json {
    Json::Text(s.to_string())
}

fn object(members: Vec<(&str, Json)>) -> Json {
    Json::Object(members.into_iter().map(|(k, v)| (k.to_string(), v)).collect())
}

#[test]
fn a_key_leads_to_its_member() {
    let value = object(vec![("a", text("x")), ("b", object(vec![("a", Json::Null)]))]);
    assert_eq!(value.get("a"), Some(&text("x")));
    assert_eq!(value.get("b").unwrap().get("a"), Some(&Json::Null));
    assert_eq!(value.get("c"), None);
    assert_eq!(Json::Array(vec![text("a")]).get("a"), None);
    assert_eq!(text("a").get("a"), None);
}

#[test]
fn only_texts_are_texts() {
    assert_eq!(text("x").as_text(), Some("x"));
    assert_eq!(Json::Number("1".to_string()).as_text(), None);
    assert_eq!(
        Json::Array(vec![text("x"), text("")]).as_texts(),
        Some(vec!["x".to_string(), String::new()])
    );
    assert_eq!(Json::Array(vec![]).as_texts(), Some(vec![]));
    assert_eq!(Json::Array(vec![text("x"), Json::Null]).as_texts(), None);
    assert_eq!(object(vec![]).as_texts(), None);
}

#[test]
fn null_and_the_empty_object_are_void() {
    assert!(Json::Null.is_void());
    assert!(Json::empty_object().is_void());
    assert!(!object(vec![("a", Json::Null)]).is_void());
    assert!(!Json::Array(vec![]).is_void());
    assert!(!text("").is_void());
    assert!(!Json::Bool(false).is_void());
}

#[test]
fn a_copy_is_the_same_value() {
    let value = object(vec![
        ("a", Json::Array(vec![Json::Null, Json::Bool(true), text("x")])),
        ("b", Json::Number("1.5".to_string())),
    ]);
    assert_eq!(value.clone(), value);
}
