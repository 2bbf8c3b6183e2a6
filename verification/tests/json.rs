//! JSON values, read and written.

use attacca::json::Json;

fn parse(text: &str) -> Json {
    Json::parse(text).expect("valid JSON")
}

#[test]
fn a_value_is_read_and_written_back() {
    let text = r#"{"a":[1,true,null,"x\n"],"b":{"c":"d"}}"#;
    assert_eq!(parse(text).to_text(), text);
    assert_eq!(parse(" [ 1 , 2 ] ").to_text(), "[1,2]");
    assert_eq!(parse("\"한\"").to_text(), "\"한\"");
}

#[test]
fn what_is_not_json_is_refused() {
    for text in ["", "{", "nul", "{\"a\":}", "[1] x"] {
        assert!(Json::parse(text).is_none(), "{text}");
    }
}

#[test]
fn fields_are_found_by_name() {
    let j = parse(r#"{"a":"x","b":7,"a":"y"}"#);
    assert_eq!(j.get_text("a").map(|s| s.as_str()), Some("y"));
    assert!(j.get("b").is_some());
    assert_eq!(j.get_text("b"), None);
    assert!(j.get("c").is_none());
    assert!(parse("[1]").get("a").is_none());
    assert_eq!(parse("\"t\"").as_text().map(|s| s.as_str()), Some("t"));
    assert_eq!(parse("1").as_text(), None);
}

#[test]
fn a_value_carries_over_and_back() {
    let value: serde_json::Value =
        serde_json::from_str(r#"{"k":[{"n":null},false,1.5,"s"]}"#).unwrap();
    let json = Json::from_value(value.clone());
    assert_eq!(json.to_value(), value);
    assert!(matches!(json.get("k"), Some(Json::Array(v)) if v.len() == 4));
    assert_eq!(json.to_text(), value.to_string());
}
