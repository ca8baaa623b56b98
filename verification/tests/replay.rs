use opencode_monitor::replay::{
    can_replay, last_revertable_message_id, message_file_urls, order_replay_messages, replay_build_tool_item,
    replay_file_path, replay_message_order_key, replay_thread, replay_tool_inputs,
    sort_replay_messages_chronologically, undo_target,
};
use opencode_monitor::session_state::SessionTranslationState;
use opencode_monitor::str_map::StrMap;
use opencode_monitor::tool_items::FileDiffs;
use opencode_monitor::json::{Json, JsonNumber};
use serde_json::{Number, Value};

fn v(text: &str) -> Value {
    serde_json::from_str(text).expect("valid JSON")
}

fn to_json(value: &Value) -> Json {
    match value {
        Value::Null => Json::Null,
        Value::Bool(b) => Json::Bool(*b),
        Value::Number(n) => {
            if let Some(u) = n.as_u64() {
                Json::Number(JsonNumber::Unsigned(u))
            } else if let Some(i) = n.as_i64() {
                Json::Number(JsonNumber::Negative(i))
            } else {
                Json::Number(JsonNumber::Float(n.to_string()))
            }
        }
        Value::String(s) => Json::Text(s.clone()),
        Value::Array(items) => Json::Array(items.iter().map(to_json).collect()),
        Value::Object(map) => {
            Json::Object(map.iter().map(|(k, item)| (k.clone(), to_json(item))).collect())
        }
    }
}

fn to_value(json: &Json) -> Value {
    match json {
        Json::Null => Value::Null,
        Json::Bool(b) => Value::Bool(*b),
        Json::Number(JsonNumber::Unsigned(n)) => Value::from(*n),
        Json::Number(JsonNumber::Negative(n)) => Value::from(*n),
        Json::Number(JsonNumber::Float(s)) => Value::Number(s.parse::<Number>().expect("number")),
        Json::Text(s) => Value::String(s.clone()),
        Json::Array(items) => Value::Array(items.iter().map(to_value).collect()),
        Json::Object(entries) => {
            let mut map = serde_json::Map::new();
            for (k, item) in entries {
                map.insert(k.clone(), to_value(item));
            }
            Value::Object(map)
        }
    }
}

fn no_diffs() -> FileDiffs {
    FileDiffs { patch_changes: None, edit_diff: None }
}

fn key(text: &str) -> Option<String> {
    replay_message_order_key(&to_json(&v(text)))
}

#[test]
fn times_become_keys_of_twenty_characters() {
    assert_eq!(key(r#"{ "createdAt": 5 }"#).as_deref(), Some("00000000000000000005"));
    assert_eq!(key(r#"{ "time": { "updated_at": -5 } }"#).as_deref(), Some("-0000000000000000005"));
    assert_eq!(key(r#"{ "updatedAt": " 2024-01-01 " }"#).as_deref(), Some("2024-01-01"));
    assert_eq!(key(r#"{ "createdAt": 1.5 }"#), None);
    assert_eq!(key(r#"{ "createdAt": "" }"#), None);
    assert_eq!(key("{}"), None);
    assert_eq!(key(r#"{ "createdAt": 18446744073709551615 }"#).as_deref(), Some("18446744073709551615"));
}

fn order_of(messages: &str) -> Vec<Value> {
    let mut list: Vec<Json> = v(messages).as_array().expect("a list").iter().map(to_json).collect();
    sort_replay_messages_chronologically(&mut list);
    list.iter().map(|message| to_value(message)["id"].clone()).collect()
}

#[test]
fn messages_are_sorted_by_time_and_keep_their_order_otherwise() {
    assert_eq!(
        order_of(r#"[{ "id": 1, "createdAt": 9 }, { "id": 2, "createdAt": 3 }, { "id": 3, "createdAt": 9 }, { "id": 4, "createdAt": 10 }]"#),
        [2, 1, 3, 4]
    );
    assert_eq!(order_of(r#"[{ "id": 1 }, { "id": 2 }, { "id": 3 }]"#), [1, 2, 3]);
}

#[test]
fn the_youngest_message_is_taken_back_first() {
    let list: Vec<Json> = [
        r#"{ "info": { "id": "b", "time": { "created": 7 } } }"#,
        r#"{ "info": { "id": "c", "time": { "created": 10 } } }"#,
        r#"{ "info": { "id": "a", "time": { "created": 9 } } }"#,
    ]
    .iter()
    .map(|text| to_json(&v(text)))
    .collect();
    assert_eq!(last_revertable_message_id(&list).as_deref(), Some("c"));
    assert_eq!(undo_target(&Json::Array(list)).expect("a message"), "c");
    assert_eq!(
        undo_target(&Json::Array(Vec::new())).expect_err("nothing"),
        "No messages available to undo in this thread."
    );
    assert_eq!(undo_target(&Json::Null).expect_err("no list"), "Invalid message list returned for undo.");
}

fn replayed(messages: &str, details: Option<&str>, diffs: &[FileDiffs]) -> Vec<Value> {
    let mut state = SessionTranslationState::new("other".to_string());
    let entries = order_replay_messages(&to_json(&v(messages)), details.map(|d| to_json(&v(d))).as_ref());
    let stored: StrMap<String> = StrMap::new();
    assert!(can_replay(&entries, &stored));
    let list: Vec<FileDiffs> = diffs
        .iter()
        .map(|d| FileDiffs { patch_changes: d.patch_changes.clone(), edit_diff: d.edit_diff.clone() })
        .collect();
    replay_thread(&mut state, "s", &entries, &stored, &list).iter().map(to_value).collect()
}

#[test]
fn a_thread_is_replayed_from_its_oldest_message_on() {
    let events = replayed(
        r#"[
            {
                "createdAt": 3,
                "info": { "role": "assistant", "tokens": { "input": 2, "output": 3 } },
                "parts": [
                    { "type": "text", "text": "one" },
                    { "type": "tool", "tool": "bash", "state": { "status": "completed", "input": { "command": ["ls", 1, "-a"] }, "output": "x" } },
                    { "type": "text", "text": "" },
                    { "type": "text", "text": "two" },
                    { "type": "tool", "name": "odd", "state": "error", "output": "bad" }
                ]
            },
            { "createdAt": 1, "info": { "role": "user" }, "parts": [{ "type": "text", "text": "hi" }] },
            { "createdAt": 2, "info": { "role": "user" }, "parts": [{ "type": "file", "url": " /a.png " }] }
        ]"#,
        None,
        &[],
    );
    assert_eq!(events.len(), 6);
    assert_eq!(events[0]["params"]["item"], v(
        r#"{ "id": "item_1", "type": "userMessage", "content": [{ "type": "text", "text": "hi" }] }"#
    ));
    assert_eq!(events[1]["params"]["item"], v(
        r#"{ "id": "item_2", "type": "userMessage", "content": [{ "type": "image", "value": "/a.png" }] }"#
    ));
    assert_eq!(events[2]["params"]["item"], v(
        r#"{
            "id": "replay_item_1", "type": "agentMessage", "text": "one\n\ntwo",
            "content": [{ "type": "text", "text": "one" }, { "type": "text", "text": "two" }]
        }"#
    ));
    assert_eq!(events[3]["params"]["item"], v(
        r#"{ "id": "replay_item_2", "type": "commandExecution", "status": "completed", "command": ["ls -a"], "aggregatedOutput": "x" }"#
    ));
    assert_eq!(events[4]["params"]["item"], v(
        r#"{ "id": "replay_item_3", "type": "commandExecution", "status": "failed", "command": ["odd"], "aggregatedOutput": "bad" }"#
    ));
    assert_eq!(events[5]["method"], "thread/tokenUsage/updated");
    assert_eq!(events[5]["params"]["tokenUsage"]["total"]["totalTokens"], 5);
    assert_eq!(events[5]["params"]["threadId"], "s");
}

#[test]
fn what_a_revert_takes_back_is_not_replayed() {
    let messages = r#"[
        { "info": { "id": "m1", "role": "user" }, "parts": [{ "type": "text", "text": "a" }] },
        { "info": { "id": "m2", "role": "user" }, "parts": [{ "type": "text", "text": "b" }] }
    ]"#;
    let details = r#"{ "revert": { "messageId": " m2 " } }"#;
    assert_eq!(replayed(messages, Some(details), &[]).len(), 1);
    assert_eq!(replayed(messages, Some(r#"{ "revert": { "messageID": "gone" } }"#), &[]).len(), 2);
    assert_eq!(replayed(messages, Some(r#"{ "revert": "m2" }"#), &[]).len(), 2);
    assert_eq!(replayed("{}", None, &[]).len(), 0);
}

#[test]
fn each_tool_call_gets_its_own_diffs() {
    let messages = r#"[{ "parts": [
        { "type": "tool", "tool": "edit", "state": { "input": { "filePath": "a" } } },
        { "type": "tool", "tool": "edit", "state": { "input": { "path": "b" } } }
    ] }]"#;
    let entries = order_replay_messages(&to_json(&v(messages)), None);
    let inputs: Vec<Value> = replay_tool_inputs(&entries).iter().map(to_value).collect();
    assert_eq!(inputs, vec![v(r#"{ "filePath": "a" }"#), v(r#"{ "path": "b" }"#)]);
    let first = FileDiffs { patch_changes: None, edit_diff: Some("D".to_string()) };
    let events = replayed(messages, None, &[first]);
    assert_eq!(events[0]["params"]["item"]["changes"], v(r#"[{ "path": "a", "kind": "modify", "diff": "D" }]"#));
    assert_eq!(events[1]["params"]["item"]["changes"], v(r#"[{ "path": "b", "kind": "modify" }]"#));
}

#[test]
fn replayed_items_show_what_the_tool_was_given() {
    let item = |kind: &str, input: Option<&str>, output: &str, diffs: &FileDiffs| {
        let input = input.map(|i| to_json(&v(i)));
        to_value(&replay_build_tool_item("i", "s", kind, "t", "completed", input.as_ref(), output, diffs))
    };
    let command = item("commandExecution", Some(r#"{ "command": "ls", "workdir": "", "cwd": "/w" }"#), " ", &no_diffs());
    assert_eq!(command, v(
        r#"{ "id": "i", "type": "commandExecution", "status": "completed", "command": ["ls"], "cwd": "/w" }"#
    ));
    let bare = item("commandExecution", None, "", &no_diffs());
    assert_eq!(bare["command"], v(r#"["t"]"#));
    let patched = FileDiffs { patch_changes: Some(vec![to_json(&v(r#"{ "path": "p" }"#))]), edit_diff: None };
    let change = item("fileChange", Some(r#"{ "filePath": "f" }"#), "out", &patched);
    assert_eq!(change["changes"], v(r#"[{ "path": "p" }]"#));
    assert_eq!(change["output"], "out");
    let none = item("fileChange", Some("{}"), "", &no_diffs());
    assert_eq!(none, v(r#"{ "id": "i", "type": "fileChange", "status": "completed" }"#));
    let todos = item("todowrite", Some(r#"{ "todos": [{ "content": "c" }, { "status": "x" }] }"#), "", &no_diffs());
    assert_eq!(todos["todos"], v(r#"[{ "content": "c", "status": "pending", "priority": "medium" }]"#));
    assert_eq!(replay_file_path(&to_json(&v(r#"{ "filePath": "", "path": "p" }"#))).as_deref(), Some("p"));
}

#[test]
fn the_files_of_a_message_are_listed() {
    let entry = to_json(&v(
        r#"{ "parts": [{ "type": "file", "url": "a" }, { "type": "text", "url": "b" }, { "type": "file" }, { "type": "file", "url": "c" }] }"#,
    ));
    assert_eq!(message_file_urls(&entry), vec!["a", "c"]);
    assert!(message_file_urls(&Json::Null).is_empty());
}

#[test]
fn a_replay_with_token_counts_that_do_not_fit_is_refused() {
    let entries = order_replay_messages(
        &to_json(&v(r#"[{ "info": { "inputTokens": 18446744073709551615, "outputTokens": 1 } }]"#)),
        None,
    );
    assert!(!can_replay(&entries, &StrMap::new()));
}
