use opencode_monitor::json_text;
use opencode_monitor::json_text::{debug_json, parse_json, pretty_json};
use opencode_monitor::json::{Json, JsonNumber};
use serde_json::{Number, Value};

fn v(text: &str) -> Value {
    serde_json::from_str(text).expect("valid JSON")
}

fn to_json(value: &Value) -> Json {
    match value {
        Value::Null => Json::Null,
        Value::Bool(b) => Json::Bool(*b),
        Value::Number(n) => {
            if let Some(u) = n.as_u64() {
                Json::Number(JsonNumber::Unsigned(u))
            } else if let Some(i) = n.as_i64() {
                Json::Number(JsonNumber::Negative(i))
            } else {
                Json::Number(JsonNumber::Float(n.to_string()))
            }
        }
        Value::String(s) => Json::Text(s.clone()),
        Value::Array(items) => Json::Array(items.iter().map(to_json).collect()),
        Value::Object(map) => {
            Json::Object(map.iter().map(|(k, item)| (k.clone(), to_json(item))).collect())
        }
    }
}

fn to_value(json: &Json) -> Value {
    match json {
        Json::Null => Value::Null,
        Json::Bool(b) => Value::Bool(*b),
        Json::Number(JsonNumber::Unsigned(n)) => Value::from(*n),
        Json::Number(JsonNumber::Negative(n)) => Value::from(*n),
        Json::Number(JsonNumber::Float(s)) => Value::Number(s.parse::<Number>().expect("number")),
        Json::Text(s) => Value::String(s.clone()),
        Json::Array(items) => Value::Array(items.iter().map(to_value).collect()),
        Json::Object(entries) => {
            let mut map = serde_json::Map::new();
            for (k, item) in entries {
                map.insert(k.clone(), to_value(item));
            }
            Value::Object(map)
        }
    }
}

#[test]
fn values_are_read_as_they_are_written() {
    let text = r#"{"b":[1,-2,2.5,true,null],"a":{"x":"y"}}"#;
    let json = parse_json(text).expect("a value");
    assert_eq!(json, to_json(&v(text)));
    assert_eq!(
        json,
        Json::Object(vec![
            ("a".to_string(), Json::Object(vec![("x".to_string(), Json::Text("y".to_string()))])),
            (
                "b".to_string(),
                Json::Array(vec![
                    Json::Number(JsonNumber::Unsigned(1)),
                    Json::Number(JsonNumber::Negative(-2)),
                    Json::Number(JsonNumber::Float("2.5".to_string())),
                    Json::Bool(true),
                    Json::Null,
                ])
            ),
        ])
    );
    assert!(parse_json("{").is_none());
    assert!(parse_json("").is_none());
}

#[test]
fn notations_are_those_of_the_value() {
    let value = v(r#"{ "k": [1, "two"], "a": 0.5 }"#);
    assert_eq!(pretty_json(&to_json(&value)), serde_json::to_string_pretty(&value).expect("text"));
    assert_eq!(debug_json(&to_json(&value)), format!("{value:?}"));
}

#[test]
fn names_are_ordered_and_the_later_entry_stays() {
    let entry = |k: &str, n: u64| (k.to_string(), Json::Number(JsonNumber::Unsigned(n)));
    let json = Json::Object(vec![entry("b", 1), entry("a", 2), entry("b", 3)]);
    assert_eq!(pretty_json(&json), "{\n  \"a\": 2,\n  \"b\": 3\n}");
    assert_eq!(to_value(&json), v(r#"{ "a": 2, "b": 3 }"#));
    assert_eq!(json_text::to_value(&json), v(r#"{ "a": 2, "b": 3 }"#));
    assert_eq!(pretty_json(&Json::Number(JsonNumber::Negative(4))), "4");
    assert_eq!(pretty_json(&Json::Number(JsonNumber::Float("1e2".to_string()))), "100.0");
    assert_eq!(pretty_json(&Json::Number(JsonNumber::Float("x".to_string()))), "null");
}

#[test]
fn entries_are_found_and_set() {
    let json = Json::obj().and("a", Json::number(1)).with("b", Json::text("t")).with("a", Json::Null);
    assert_eq!(to_value(&json), v(r#"{ "a": null, "b": "t" }"#));
    assert_eq!(json.get_str("b"), Some("t"));
    assert!(json.get("c").is_none());
    assert!(Json::Null.get("a").is_none());
    assert_eq!(Json::number(u64::MAX).as_i64(), None);
    assert_eq!(Json::number(5).as_i64(), Some(5));
    assert_eq!(Json::Bool(true).as_bool(), Some(true));
    assert_eq!(json.clone(), json);
}

#[test]
fn values_are_taken_over_and_handed_back() {
    let value = v(r#"{ "z": [1, -2, 0.5, "t", null, true], "a": { "k": [] } }"#);
    let json = json_text::from_value(value.clone());
    assert_eq!(to_value(&json), value);
    assert_eq!(json_text::to_value(&json), value);
    match &json {
        Json::Object(entries) => {
            let names: Vec<&str> = entries.iter().map(|(name, _)| name.as_str()).collect();
            assert_eq!(names, vec!["a", "z"]);
        }
        _ => panic!("it is an object"),
    }
}
