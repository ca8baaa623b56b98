use opencode_monitor::prompt_parts::{
    build_image_part, build_local_image_part, build_mention_part, build_prompt_body, build_turn_response,
    build_user_turn_id, local_image_as_part, plan_prompt_parts, start_user_turn, PartStep,
};
use opencode_monitor::session_state::SessionTranslationState;
use opencode_monitor::str_map::StrMap;
use opencode_monitor::json::{Json, JsonNumber};
use serde_json::{Number, Value};

fn v(text: &str) -> Value {
    serde_json::from_str(text).expect("valid JSON")
}

fn to_json(value: &Value) -> Json {
    match value {
        Value::Null => Json::Null,
        Value::Bool(b) => Json::Bool(*b),
        Value::Number(n) => {
            if let Some(u) = n.as_u64() {
                Json::Number(JsonNumber::Unsigned(u))
            } else if let Some(i) = n.as_i64() {
                Json::Number(JsonNumber::Negative(i))
            } else {
                Json::Number(JsonNumber::Float(n.to_string()))
            }
        }
        Value::String(s) => Json::Text(s.clone()),
        Value::Array(items) => Json::Array(items.iter().map(to_json).collect()),
        Value::Object(map) => {
            Json::Object(map.iter().map(|(k, item)| (k.clone(), to_json(item))).collect())
        }
    }
}

fn to_value(json: &Json) -> Value {
    match json {
        Json::Null => Value::Null,
        Json::Bool(b) => Value::Bool(*b),
        Json::Number(JsonNumber::Unsigned(n)) => Value::from(*n),
        Json::Number(JsonNumber::Negative(n)) => Value::from(*n),
        Json::Number(JsonNumber::Float(s)) => Value::Number(s.parse::<Number>().expect("number")),
        Json::Text(s) => Value::String(s.clone()),
        Json::Array(items) => Value::Array(items.iter().map(to_value).collect()),
        Json::Object(entries) => {
            let mut map = serde_json::Map::new();
            for (k, item) in entries {
                map.insert(k.clone(), to_value(item));
            }
            Value::Object(map)
        }
    }
}

fn list(text: &str) -> Option<Vec<Json>> {
    Some(v(text).as_array().expect("a list").iter().map(to_json).collect())
}

fn ready(step: &PartStep) -> Value {
    match step {
        PartStep::Ready(part) => to_value(part),
        _ => panic!("the part is ready"),
    }
}

#[test]
fn parts_come_in_their_order() {
    let images = Some(vec![
        "  ".to_string(),
        " data:image/png;base64,AA== ".to_string(),
        "data:,x".to_string(),
        "https://example.com/a.png".to_string(),
        "/tmp/b.png".to_string(),
    ]);
    let mentions = list(
        r#"[
            { "name": " A ", "path": "app:///tmp/a.txt" },
            { "name": "again", "path": "app:///tmp/a.txt" },
            { "name": "B", "path": " app://b.txt " }
        ]"#,
    );
    let agents = list(r#"[{ "name": " explore " }]"#);
    let plan = plan_prompt_parts(" hi ", &images, &mentions, &agents);
    assert_eq!(plan.error, None);
    assert_eq!(plan.steps.len(), 8);
    assert_eq!(ready(&plan.steps[0]), v(r#"{ "type": "text", "text": "hi" }"#));
    assert_eq!(
        ready(&plan.steps[1]),
        v(r#"{ "type": "file", "mime": "image/png", "url": "data:image/png;base64,AA==", "filename": "image" }"#)
    );
    assert_eq!(ready(&plan.steps[2])["mime"], "application/octet-stream");
    assert!(matches!(&plan.steps[3], PartStep::Fetch(s) if s == "https://example.com/a.png"));
    assert!(matches!(&plan.steps[4], PartStep::ReadImage(s) if s == "/tmp/b.png"));
    assert!(
        matches!(&plan.steps[5], PartStep::ReadMention { name, path } if name == "A" && path == "/tmp/a.txt")
    );
    assert!(matches!(&plan.steps[6], PartStep::ReadMention { name, path } if name == "B" && path == "b.txt"));
    assert_eq!(ready(&plan.steps[7]), v(r#"{ "type": "agent", "name": "explore" }"#));
}

#[test]
fn faults_of_a_prompt_are_told_apart() {
    let error = |mentions: Option<Vec<Json>>, agents: Option<Vec<Json>>| {
        plan_prompt_parts("x", &None, &mentions, &agents).error.expect("an error")
    };
    assert_eq!(error(list("[1]"), None), "invalid app mention payload");
    assert_eq!(error(list(r#"[{ "path": "app://x" }]"#), None), "invalid app mention name");
    assert_eq!(error(list(r#"[{ "name": "n" }]"#), None), "invalid app mention path");
    assert_eq!(error(list(r#"[{ "name": "n", "path": "app://" }]"#), None), "invalid app mention path");
    assert_eq!(error(list(r#"[{ "name": "n", "path": "file://x" }]"#), None), "invalid app mention path");
    assert_eq!(error(None, list("[null]")), "invalid agent mention payload");
    assert_eq!(error(None, list(r#"[{ "name": " " }]"#)), "invalid agent mention name");
    assert_eq!(error(list("[1]"), list("[null]")), "invalid app mention payload");
    let empty = plan_prompt_parts("  ", &Some(vec![" ".to_string()]), &list("[]"), &None);
    assert_eq!(empty.error.as_deref(), Some("empty user message"));
    let late = plan_prompt_parts("x", &None, &list(r#"[{ "name": "n", "path": "app://x" }, 2]"#), &None);
    assert_eq!(late.steps.len(), 2);
    assert_eq!(late.error.as_deref(), Some("invalid app mention payload"));
}

#[test]
fn files_become_parts() {
    let image = to_value(&local_image_as_part("/tmp/a.gif", Some("a.gif"), &Some(b"GIF89a".to_vec())));
    assert_eq!(
        image,
        v(r#"{ "type": "file", "mime": "image/gif", "url": "data:image/gif;base64,R0lGODlh", "filename": "a.gif" }"#)
    );
    assert_eq!(to_value(&build_image_part("/tmp/a.gif", &Some(b"GIF89a".to_vec()))), image);
    let plain = to_value(&build_image_part("a.gif", &Some(b"GIF89a".to_vec())));
    assert_eq!(plain["filename"], "a.gif");
    let upward = to_value(&build_image_part("/tmp/..", &Some(Vec::new())));
    assert_eq!(upward["filename"], "image");
    for (path, name) in [("a//b.gif", "b.gif"), ("/a/b.gif/./", "b.gif"), ("a/../", "image"), ("./.", "image")] {
        assert_eq!(to_value(&build_image_part(path, &Some(Vec::new())))["filename"], name);
    }
    assert_eq!(
        to_value(&build_image_part("/tmp/a.gif", &None)),
        v(r#"{ "type": "text", "text": "[image: /tmp/a.gif]" }"#)
    );
    let nameless = to_value(&build_local_image_part("/tmp/..", None, Some("AA==")));
    assert_eq!(nameless["filename"], "image");
    let missing = to_value(&local_image_as_part("/tmp/a.gif", Some("a.gif"), &None));
    assert_eq!(missing, v(r#"{ "type": "text", "text": "[image: /tmp/a.gif]" }"#));
    let mention = to_value(&build_mention_part("A", "/a.txt", Some("body")));
    assert_eq!(mention["text"], "--- A (/a.txt) ---\nbody");
    let unread = to_value(&build_mention_part("A", "/a.txt", None));
    assert_eq!(unread["text"], "[file: A at /a.txt]");
}

#[test]
fn a_turn_of_the_user_is_shown_at_once() {
    let mut state = SessionTranslationState::new("s".to_string());
    let mut stored: StrMap<String> = StrMap::new();
    stored.insert("data:image/png;base64,AA==", "/cache/x.png".to_string());
    let turn_id = build_user_turn_id(7);
    assert_eq!(turn_id, "turn_7");
    let images = vec![" ".to_string(), "data:image/png;base64,AA==".to_string(), " /b.png ".to_string()];
    let events: Vec<Value> =
        start_user_turn(&mut state, "s", &turn_id, " hi ", &images, &stored).iter().map(to_value).collect();
    assert_eq!(events.len(), 2);
    assert_eq!(events[0]["method"], "turn/started");
    assert_eq!(events[0]["params"]["turn"]["id"], "turn_7");
    assert_eq!(
        events[1]["params"]["item"],
        v(r#"{
            "id": "item_1", "type": "userMessage",
            "content": [
                { "type": "text", "text": "hi" },
                { "type": "image", "value": "/cache/x.png" },
                { "type": "image", "value": "/b.png" }
            ]
        }"#)
    );
    assert_eq!(state.user_message_item("s"), "item_1");
    let quiet = start_user_turn(&mut state, "s", "turn_8", " ", &Vec::new(), &stored);
    assert_eq!(quiet.len(), 1);
}

#[test]
fn the_request_of_a_prompt_has_what_was_chosen() {
    let parts = || vec![to_json(&v(r#"{ "type": "text", "text": "x" }"#))];
    let plain = to_value(&build_prompt_body(parts(), None, &Some("  ".to_string()), None));
    assert_eq!(plain, v(r#"{ "parts": [{ "type": "text", "text": "x" }] }"#));
    let model = to_json(&v(r#"{ "providerID": "p", "modelID": "m" }"#));
    let mode = to_json(&v(r#"{ "mode": " plan " }"#));
    let full =
        to_value(&build_prompt_body(parts(), Some(model), &Some(" high ".to_string()), Some(&mode)));
    assert_eq!(full["model"]["providerID"], "p");
    assert_eq!(full["effort"], "high");
    assert_eq!(full["agent"], "plan");
    assert_eq!(to_value(&build_turn_response("turn_7")), v(r#"{ "result": { "turn": { "id": "turn_7" } } }"#));
}
