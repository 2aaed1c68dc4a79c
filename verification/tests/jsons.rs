use termux_agent_router::json::Json;
use termux_agent_router::reply::{error_response, health, upstream_response};

fn object(fields: Vec<(&str, Json)>) -> Json {
    Json::Object(fields.into_iter().map(|(name, part)| (name.to_string(), part)).collect())
}

#[test]
fn json_texts_are_read() {
    let json = Json::parse(r#" {"b": [1, -2.5, null], "a": {"x": "é\n"}, "c": true} "#).unwrap();
    assert_eq!(json.get("a").unwrap().get("x").unwrap().as_str(), Some("\u{e9}\n"));
    assert_eq!(json.get("b").unwrap().at(0), Some(&Json::Number(serde_json::Number::from(1u64))));
    assert_eq!(json.get("b").unwrap().at(2), Some(&Json::Null));
    assert_eq!(json.get("b").unwrap().at(3), None);
    assert_eq!(json.get("c"), Some(&Json::Bool(true)));
    assert_eq!(json.get("d"), None);
}

#[test]
fn other_texts_are_refused() {
    for text in ["", "{", "{\"a\"}", "[1,]", "nul", "'a'", "{} {}"] {
        assert_eq!(Json::parse(text), None, "{}", text);
    }
}

#[test]
fn json_is_written_as_serde_writes_it() {
    let text = r#"{"z":[1,2.5,"a\"b"],"a":{"y":null,"x":false},"m":"\u0001"}"#;
    let value: serde_json::Value = serde_json::from_str(text).unwrap();
    assert_eq!(Json::parse(text).unwrap().to_text(), value.to_string());
    assert_eq!(
        Json::parse(text).unwrap().to_text(),
        r#"{"a":{"x":false,"y":null},"m":"\u0001","z":[1,2.5,"a\"b"]}"#
    );
}

#[test]
fn values_of_serde_are_taken_over_and_given_back() {
    let text = r#"{"z":[1,-2,2.5,"a"],"a":{"y":null,"x":false}}"#;
    let value: serde_json::Value = serde_json::from_str(text).unwrap();
    assert_eq!(Json::from_value(value.clone()), Json::parse(text).unwrap());
    assert_eq!(Json::from_value(value.clone()).to_value(), value);
    let repeated = object(vec![("a", Json::text("1")), ("a", Json::text("2"))]);
    assert_eq!(repeated.to_value(), serde_json::from_str::<serde_json::Value>(r#"{"a":"2"}"#).unwrap());
}

#[test]
fn objects_of_texts_are_read_back() {
    let json = object(vec![("error", Json::text("a \"quoted\"\n\u{0}\u{1f600} line"))]);
    assert_eq!(Json::parse(&json.to_text()), Some(json));
}

#[test]
fn reserved_names_are_read_as_serde_reads_them() {
    for text in [
        r#"{"$serde_json::private::RawValue":"[1]"}"#,
        r#"{"$serde_json::private::Number":"1"}"#,
        r#"{"a":"b","$serde_json::private::RawValue":"[1]"}"#,
    ] {
        let value: serde_json::Value = serde_json::from_str(text).unwrap();
        assert_eq!(Json::parse(text), Some(Json::from_value(value)));
    }
}

#[test]
fn the_last_of_equal_fields_counts() {
    let json = object(vec![("a", Json::text("1")), ("b", Json::Null), ("a", Json::text("2"))]);
    assert_eq!(json.get("a").unwrap().as_str(), Some("2"));
    assert_eq!(json.to_text(), r#"{"a":"2","b":null}"#);
    let set = json.with_field("a", Json::text("3"));
    assert_eq!(set.get("a").unwrap().as_str(), Some("3"));
    assert_eq!(set.get("b"), Some(&Json::Null));
    assert_eq!(set.to_text(), r#"{"a":"3","b":null}"#);
}

#[test]
fn a_field_that_was_set_is_read_back() {
    let json = Json::object().with_field("a", Json::text("x")).with_field("b", Json::Bool(true));
    assert_eq!(json.get("a").unwrap().as_str(), Some("x"));
    assert_eq!(json.get("b"), Some(&Json::Bool(true)));
    assert_eq!(Json::Null.with_field("a", Json::Null).to_text(), r#"{"a":null}"#);
}

#[test]
fn only_objects_have_fields_and_only_arrays_items() {
    for json in [Json::Null, Json::text("a"), Json::Array(vec![Json::Null]), Json::Bool(true)] {
        assert_eq!(json.get("a"), None);
    }
    for json in [Json::Null, Json::text("a"), Json::object()] {
        assert_eq!(json.at(0), None);
    }
    assert_eq!(Json::object().as_str(), None);
}

#[test]
fn clones_are_equal() {
    let json = Json::parse(r#"{"a":[{"b":[1,2,[3.5]]},null],"c":"d"}"#).unwrap();
    assert_eq!(json.clone(), json);
}

#[test]
fn errors_are_told_as_json() {
    let reply = error_response(502, "all \"providers\" failed");
    assert_eq!(reply.status, 502);
    assert_eq!(reply.body.as_slice(), br#"{"error":"all \"providers\" failed"}"#);
    assert_eq!(reply.content_type, Some(b"application/json".to_vec()));
    let body = Json::parse(std::str::from_utf8(&reply.body).unwrap()).unwrap();
    assert_eq!(body.get("error").unwrap().as_str(), Some("all \"providers\" failed"));
}

#[test]
fn upstream_answers_are_handed_on_unread() {
    let reply = upstream_response(299, vec![0, 255], None);
    assert_eq!(reply.status, 299);
    assert_eq!(reply.body, vec![0, 255]);
    assert_eq!(reply.content_type, None);
    let reply = upstream_response(200, vec![], Some(b"text/event-stream".to_vec()));
    assert_eq!(reply.content_type, Some(b"text/event-stream".to_vec()));
    assert_ne!(reply, health());
}
