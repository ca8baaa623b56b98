use opencode_monitor::event_translator;
use opencode_monitor::event_translator::{can_translate, event_tool_input, parse_u64, unseen_suffix};
use opencode_monitor::session_state::SessionTranslationState;
use opencode_monitor::str_map::StrMap;
use opencode_monitor::tool_items::{
    build_apply_patch_delta_summary, build_explore_entry, build_plan_from_todos, build_plan_update, build_tool_item,
    choose_delta_text, command_parts_from_raw_input, tool_input_delta_text, FileDiffs,
};
use opencode_monitor::json::{Json, JsonNumber};
use serde_json::{Number, Value};

fn v(text: &str) -> Value {
    serde_json::from_str(text).expect("valid JSON")
}

fn to_json(value: &Value) -> Json {
    match value {
        Value::Null => Json::Null,
        Value::Bool(b) => Json::Bool(*b),
        Value::Number(n) => {
            if let Some(u) = n.as_u64() {
                Json::Number(JsonNumber::Unsigned(u))
            } else if let Some(i) = n.as_i64() {
                Json::Number(JsonNumber::Negative(i))
            } else {
                Json::Number(JsonNumber::Float(n.to_string()))
            }
        }
        Value::String(s) => Json::Text(s.clone()),
        Value::Array(items) => Json::Array(items.iter().map(to_json).collect()),
        Value::Object(map) => {
            Json::Object(map.iter().map(|(k, item)| (k.clone(), to_json(item))).collect())
        }
    }
}

fn to_value(json: &Json) -> Value {
    match json {
        Json::Null => Value::Null,
        Json::Bool(b) => Value::Bool(*b),
        Json::Number(JsonNumber::Unsigned(n)) => Value::from(*n),
        Json::Number(JsonNumber::Negative(n)) => Value::from(*n),
        Json::Number(JsonNumber::Float(s)) => Value::Number(s.parse::<Number>().expect("number")),
        Json::Text(s) => Value::String(s.clone()),
        Json::Array(items) => Value::Array(items.iter().map(to_value).collect()),
        Json::Object(entries) => {
            let mut map = serde_json::Map::new();
            for (k, item) in entries {
                map.insert(k.clone(), to_value(item));
            }
            Value::Object(map)
        }
    }
}

fn no_diffs() -> FileDiffs {
    FileDiffs { patch_changes: None, edit_diff: None }
}

fn send(state: &mut SessionTranslationState, kind: &str, properties: &str) -> Vec<Value> {
    let event = to_json(&v(&format!(r#"{{ "type": "{kind}", "properties": {properties} }}"#)));
    assert!(can_translate(&event, state));
    event_translator::translate_sse_event(&event, state, &no_diffs()).iter().map(to_value).collect()
}

fn new_state() -> SessionTranslationState {
    SessionTranslationState::new("s".to_string())
}

#[test]
fn identifiers_count_up_and_go_round() {
    let mut state = new_state();
    assert_eq!(state.next_item_id(), "item_1");
    assert_eq!(state.next_turn_id(), "turn_rest_2");
    state.item_counter = u64::MAX;
    assert_eq!(state.next_item_id(), "item_18446744073709551615");
    assert_eq!(state.next_item_id(), "item_0");
}

#[test]
fn unseen_text_follows_what_was_sent() {
    assert_eq!(unseen_suffix("", 0), None);
    assert_eq!(unseen_suffix("abc", 0), Some("abc"));
    assert_eq!(unseen_suffix("abc", 2), Some("c"));
    assert_eq!(unseen_suffix("abc", 3), None);
    assert_eq!(unseen_suffix("abc", 9), None);
    assert_eq!(unseen_suffix("\u{e9}b", 2), Some("b"));
    assert_eq!(unseen_suffix("\u{e9}b", 1), None);
}

#[test]
fn counts_are_numbers_or_positive_strings() {
    let count = |t: &str| parse_u64(Some(&to_json(&v(t))));
    assert_eq!(count("7"), Some(7));
    assert_eq!(count("0"), Some(0));
    assert_eq!(count(r#"" +7 ""#), Some(7));
    assert_eq!(count(r#""0""#), None);
    assert_eq!(count("-7"), None);
    assert_eq!(count("1.5"), None);
    assert_eq!(count(r#""x""#), None);
    assert_eq!(parse_u64(None), None);
}

#[test]
fn text_is_sent_once_however_it_comes() {
    let mut state = new_state();
    let part = |text: &str, delta: &str| {
        format!(r#"{{ "part": {{ "type": "text", "id": "p", "text": "{text}" }}, "delta": "{delta}" }}"#)
    };
    let first = send(&mut state, "message.part.updated", &part("ab", "ab"));
    assert_eq!(first[0]["params"]["delta"], "ab");
    let second = send(&mut state, "message.part.delta", r#"{ "partID": "p", "delta": "\u00e9" }"#);
    assert_eq!(second[0]["params"]["delta"], "\u{e9}");
    assert!(send(&mut state, "message.part.updated", &part("ab\u{e9}", "")).is_empty());
    let last = send(&mut state, "message.part.updated", &part("ab\u{e9}!", ""));
    assert_eq!(last[0]["params"]["delta"], "!");
    assert_eq!(last[0]["params"]["itemId"], first[0]["params"]["itemId"]);
}

#[test]
fn a_delta_of_another_part_starts_counting_anew() {
    let mut state = new_state();
    state.start_turn("s".to_string(), "turn_1".to_string());
    let first = send(&mut state, "message.part.delta", r#"{ "partID": "p1", "delta": "hello" }"#);
    assert_eq!(first[0]["params"]["delta"], "hello");
    let second = send(&mut state, "message.part.delta", r#"{ "partID": "p2", "delta": "ab" }"#);
    assert_eq!(second[0]["params"]["delta"], "ab");
    let turn = state.get_turn_state("s").expect("a turn");
    assert_eq!(turn.agent_message_part_id.as_deref(), Some("p2"));
    assert_eq!(turn.agent_message_text_len, 2);
    let whole = send(
        &mut state,
        "message.part.updated",
        r#"{ "part": { "type": "text", "id": "p2", "text": "abcdefgh" } }"#,
    );
    assert_eq!(whole[0]["params"]["delta"], "cdefgh");
}

#[test]
fn a_turn_is_started_once_and_ended() {
    let mut state = new_state();
    let started = send(&mut state, "session.status", r#"{ "sessionID": "s", "status": { "type": "busy" } }"#);
    assert_eq!(started[0]["method"], "turn/started");
    assert!(send(&mut state, "session.status", r#"{ "status": { "type": "active" } }"#).is_empty());
    let ended = send(&mut state, "session.idle", "{}");
    assert_eq!(ended[0]["method"], "turn/completed");
    assert_eq!(ended[0]["params"]["turn"]["id"], started[0]["params"]["turn"]["id"]);
    assert_eq!(state.turn_id("s"), "");
    let again = send(&mut state, "session.status", r#"{ "status": { "type": "running" } }"#);
    assert_eq!(again.len(), 1);
    let failed = send(&mut state, "session.status", r#"{ "status": { "type": "error" } }"#);
    assert_eq!(failed[0]["params"]["error"]["message"], "unknown error");
    assert_eq!(state.turn_id("s"), "");
}

#[test]
fn one_session_does_not_disturb_another() {
    let mut state = new_state();
    send(&mut state, "session.status", r#"{ "sessionID": "a", "status": { "type": "busy" } }"#);
    let turn = state.turn_id("a");
    send(&mut state, "session.status", r#"{ "sessionID": "b", "status": { "type": "busy" } }"#);
    send(&mut state, "session.error", r#"{ "sessionID": "b", "error": { "name": "X" } }"#);
    assert_eq!(state.turn_id("a"), turn);
    assert_eq!(state.turn_id("b"), "");
}

#[test]
fn a_tool_part_keeps_its_item_and_a_nameless_one_does_not() {
    let mut state = new_state();
    let tool = |id: &str, status: &str| {
        format!(r#"{{ "part": {{ "type": "tool", {id} "tool": "bash", "state": {{ "status": "{status}" }} }} }}"#)
    };
    let a = send(&mut state, "message.part.updated", &tool(r#""id": "t","#, "running"));
    let b = send(&mut state, "message.part.updated", &tool(r#""id": "t","#, "completed"));
    assert_eq!(a[0]["params"]["item"]["id"], b[0]["params"]["item"]["id"]);
    let c = send(&mut state, "message.part.updated", &tool("", "running"));
    let d = send(&mut state, "message.part.updated", &tool("", "running"));
    assert_ne!(c[0]["params"]["item"]["id"], d[0]["params"]["item"]["id"]);
    assert!(send(&mut state, "message.part.updated", &tool("", "odd")).is_empty());
}

#[test]
fn a_tool_part_keeps_its_item_through_other_events() {
    let mut state = new_state();
    let tool = |id: &str, status: &str| {
        format!(
            r#"{{ "part": {{ "type": "tool", "id": "{id}", "sessionID": "s", "tool": "bash",
                "state": {{ "status": "{status}", "input": {{ "command": "ls" }} }} }} }}"#
        )
    };
    let item = |events: &[Value]| events[0]["params"]["item"]["id"].as_str().expect("an item").to_string();
    send(&mut state, "session.status", r#"{ "sessionID": "s", "status": { "type": "busy" } }"#);
    let started = send(&mut state, "message.part.updated", &tool("t", "running"));
    assert_eq!(started.len(), 2);
    assert_eq!(started[1]["params"]["itemId"], started[0]["params"]["item"]["id"]);
    let other = send(&mut state, "message.part.updated", &tool("u", "running"));
    assert_ne!(item(&started), item(&other));
    for (kind, properties) in [
        ("session.status", r#"{ "sessionID": "s", "status": { "type": "busy" } }"#),
        ("message.part.delta", r#"{ "partID": "a", "delta": "x" }"#),
        ("message.part.removed", r#"{ "sessionID": "s", "partID": "u" }"#),
        ("session.idle", r#"{ "sessionID": "other" }"#),
        ("question.asked", r#"{ "sessionID": "s", "id": "q" }"#),
    ] {
        send(&mut state, kind, properties);
    }
    let done = send(&mut state, "message.part.updated", &tool("t", "completed"));
    assert_eq!(item(&started), item(&done));
    send(&mut state, "message.part.removed", r#"{ "sessionID": "s", "partID": "t" }"#);
    let again = send(&mut state, "message.part.updated", &tool("t", "running"));
    assert_ne!(item(&started), item(&again));
}

#[test]
fn no_item_is_given_out_twice() {
    let mut state = new_state();
    let mut ids = Vec::new();
    for session in ["s", "other"] {
        state.start_turn(session.to_string(), "turn".to_string());
        ids.push(state.user_message_item(session));
        ids.push(state.agent_message_item(session));
        ids.push(state.reasoning_item(session));
        ids.push(state.tool_call_item(session, "t"));
        ids.push(state.tool_call_item(session, "u"));
        ids.push(state.next_item_id());
    }
    for (i, id) in ids.iter().enumerate() {
        assert!(id.starts_with("item_"));
        assert!(!ids[..i].contains(id));
    }
    assert_eq!(state.reasoning_item("s"), ids[2]);
    assert_eq!(state.user_message_item("other"), ids[6]);
}

#[test]
fn the_counter_goes_up_by_two_at_most() {
    let mut state = new_state();
    for (kind, properties) in [
        ("session.status", r#"{ "sessionID": "a", "status": { "type": "busy" } }"#),
        ("message.part.delta", r#"{ "delta": "x" }"#),
        ("question.asked", r#"{ "id": "q" }"#),
        ("todo.updated", r#"{ "todos": [] }"#),
        ("session.idle", "{}"),
        ("unknown", "{}"),
    ] {
        let before = state.item_counter;
        send(&mut state, kind, properties);
        assert!(before <= state.item_counter && state.item_counter <= before + 2);
    }
    assert_eq!(state.item_counter, 5);
}

#[test]
fn questions_are_shown_with_their_places() {
    let mut state = new_state();
    let events = send(
        &mut state,
        "question.asked",
        r#"{
            "id": "q1", "sessionID": "s2",
            "questions": [
                { "header": "H", "question": "Q?", "options": [{ "label": "a", "description": "b" }, {}] },
                { "custom": false }
            ]
        }"#,
    );
    assert_eq!(events[0], v(
        r#"{
            "id": "s2:q1", "method": "item/tool/requestUserInput",
            "params": {
                "threadId": "s2", "turnId": "", "itemId": "item_1",
                "questions": [
                    { "id": "0", "header": "H", "question": "Q?", "isOther": true,
                      "options": [{ "label": "a", "description": "b" }, { "label": "", "description": "" }] },
                    { "id": "1", "header": "", "question": "", "isOther": false, "options": [] }
                ]
            }
        }"#
    ));
    assert!(send(&mut state, "question.asked", "{}").is_empty());
    let replied = send(&mut state, "question.replied", r#"{ "sessionID": "s2", "requestID": "q1" }"#);
    assert_eq!(replied[0]["params"], v(r#"{ "requestId": "s2:q1", "workspaceId": "s2" }"#));
    assert!(send(&mut state, "question.rejected", "{}").is_empty());
}

#[test]
fn permissions_are_asked_for_by_pattern_or_kind() {
    let mut state = new_state();
    let label = |state: &mut SessionTranslationState, p: &str| {
        send(state, "permission.asked", p)[0]["params"]["command"][0].as_str().expect("a label").to_string()
    };
    assert_eq!(label(&mut state, r#"{ "patterns": ["a", 1, "b"] }"#), "a, b");
    assert_eq!(label(&mut state, r#"{ "patterns": "p" }"#), "p");
    assert_eq!(label(&mut state, r#"{ "patterns": 1, "permission": "edit" }"#), "edit");
    assert_eq!(label(&mut state, "{}"), "command");
    assert_eq!(send(&mut state, "permission.asked", r#"{ "id": "p" }"#)[0]["id"], "s:p");
}

#[test]
fn todo_lists_become_plans() {
    let mut state = new_state();
    let events = send(
        &mut state,
        "todo.updated",
        r#"{ "sessionID": "", "todos": [
            { "content": "a", "status": "in_progress" }, { "content": "b", "status": "cancelled" },
            { "content": "c" }, { "status": "completed" }, { "content": "d", "status": "completed" }
        ] }"#,
    );
    assert_eq!(events[0]["params"], v(
        r#"{
            "threadId": "s", "turnId": "", "explanation": null,
            "plan": [
                { "step": "a", "status": "inProgress" }, { "step": "b", "status": "completed" },
                { "step": "c", "status": "pending" }, { "step": "d", "status": "completed" }
            ]
        }"#
    ));
    let tool = send(
        &mut state,
        "message.part.updated",
        r#"{ "part": { "type": "tool", "tool": "todowrite", "state": {
            "status": "completed", "metadata": { "todos": [{ "content": "m", "priority": "high" }] }, "input": { "todos": [] }
        } } }"#,
    );
    assert_eq!(tool.len(), 2);
    assert_eq!(tool[0]["params"]["item"]["todos"], v(r#"[{ "content": "m", "status": "pending", "priority": "high" }]"#));
    assert_eq!(tool[1]["method"], "turn/plan/updated");
}

#[test]
fn empty_todo_lists_clear_the_plan() {
    let todos = |text: &str| to_json(&v(text));
    assert!(build_plan_from_todos("s", "t", &todos("[]")).is_none());
    assert!(build_plan_from_todos("s", "t", &todos("{}")).is_none());
    let shown = build_plan_from_todos("s", "t", &todos(r#"[{ "content": "a" }]"#)).expect("a plan");
    assert_eq!(to_value(&shown)["params"]["plan"], v(r#"[{ "step": "a", "status": "pending" }]"#));
    let cleared = to_value(&build_plan_update("s", "t", &todos("[]")));
    assert_eq!(cleared, v(
        r#"{
            "method": "turn/plan/updated",
            "params": { "threadId": "s", "turnId": "t", "explanation": null, "plan": [] }
        }"#
    ));
    let mut state = new_state();
    assert_eq!(send(&mut state, "todo.updated", r#"{ "todos": [] }"#)[0]["params"]["plan"], v("[]"));
    assert_eq!(send(&mut state, "todo.updated", "{}")[0]["params"]["plan"], v("[]"));
}

fn sent(events: &[Value]) -> String {
    events.iter().filter_map(|event| event["params"]["delta"].as_str()).collect()
}

#[test]
fn the_deltas_of_a_part_make_up_its_text() {
    for kind in ["text", "reasoning"] {
        let mut state = new_state();
        let updated = |state: &mut SessionTranslationState, part: &str, text: &str, delta: &str| {
            let properties = format!(
                r#"{{ "part": {{ "type": "{kind}", "id": "{part}", "text": "{text}" }}, "delta": "{delta}" }}"#
            );
            sent(&send(state, "message.part.updated", &properties))
        };
        assert_eq!(updated(&mut state, "old", "before", ""), "before");
        let mut all = String::new();
        all += &updated(&mut state, "p", "h\u{e9}", "");
        let alone = send(&mut state, "message.part.delta", r#"{ "partID": "p", "delta": "l" }"#);
        all += &sent(&alone);
        all += &updated(&mut state, "p", "", "lo");
        all += &updated(&mut state, "p", "h\u{e9}llo", "");
        assert_eq!(all, "h\u{e9}llo");
        all += &updated(&mut state, "p", "h\u{e9}llo!", "");
        assert_eq!(all, "h\u{e9}llo!");
    }
}

#[test]
fn the_user_message_of_a_turn_has_the_lowest_number() {
    let number = |id: &str| id.strip_prefix("item_").and_then(|n| n.parse::<u64>().ok()).expect("an item");
    let mut state = new_state();
    send(&mut state, "session.status", r#"{ "status": { "type": "busy" } }"#);
    send(&mut state, "message.part.updated", r#"{ "part": { "type": "reasoning", "id": "r" }, "delta": "x" }"#);
    send(&mut state, "message.part.updated", r#"{ "part": { "type": "tool", "id": "t", "tool": "bash", "state": {} } }"#);
    send(&mut state, "message.part.updated", r#"{ "part": { "type": "text", "id": "a" }, "delta": "x" }"#);
    let turn = state.get_turn_state("s").expect("a turn");
    let user = number(turn.user_message_item_id.as_deref().expect("a user message"));
    assert!(user < number(turn.reasoning_item_id.as_deref().expect("reasoning")));
    assert!(user < number(turn.agent_message_item_id.as_deref().expect("a message")));
    assert!(user < number(turn.tool_call_items.get("t").expect("a tool")));
}

#[test]
fn running_tools_show_their_input() {
    let input = to_json(&v(r#"{ "b": 1, "a": [2] }"#));
    assert_eq!(
        tool_input_delta_text("bash", &input, &no_diffs()),
        "{\n  \"a\": [\n    2\n  ],\n  \"b\": 1\n}"
    );
    assert_eq!(tool_input_delta_text("apply_patch", &input, &no_diffs()), "Applying patch...");
    assert_eq!(choose_delta_text("bash", &input, "N".to_string(), &no_diffs()), "N");
    let changes = |n: usize| FileDiffs {
        patch_changes: Some((0..n).map(|i| to_json(&v(&format!(r#"{{ "path": "f{i}" }}"#)))).collect()),
        edit_diff: None,
    };
    let patch = to_json(&v(r#"{ "patchText": "x" }"#));
    let summary = |d: &FileDiffs| build_apply_patch_delta_summary(&patch, d);
    assert_eq!(summary(&changes(1)).as_deref(), Some("Applying patch to 1 file: modify f0"));
    assert_eq!(
        summary(&changes(5)).as_deref(),
        Some("Applying patch to 5 files: modify f0, modify f1, modify f2, +2 more")
    );
    assert_eq!(summary(&changes(0)).as_deref(), Some("Applying patch..."));
    assert_eq!(summary(&no_diffs()), None);
    let blank = to_json(&v(r#"{ "patchText": " " }"#));
    assert_eq!(build_apply_patch_delta_summary(&blank, &no_diffs()).as_deref(), Some("Applying patch..."));
}

#[test]
fn commands_fall_back_to_the_title() {
    let words = |t: &str, title: &str| command_parts_from_raw_input(&to_json(&v(t)), title);
    assert_eq!(words(r#"{ "command": [" ls ", "", 1, "-a"] }"#, "t"), vec!["ls", "-a"]);
    assert_eq!(words(r#"{ "command": " ls -a " }"#, "t"), vec!["ls -a"]);
    assert_eq!(words(r#"{ "command": [] }"#, " t "), vec!["t"]);
    assert!(words("{}", " ").is_empty());
}

#[test]
fn items_show_what_the_tool_was_given() {
    let input = to_json(&v(r#"{ "command": "ls", "cwd": " /w " }"#));
    let item = to_value(&build_tool_item("i", "commandExecution", "bash", "completed", Some(&input), Some("out"), None, &no_diffs()));
    assert_eq!(item, v(
        r#"{ "id": "i", "type": "commandExecution", "status": "completed", "command": ["ls"], "cwd": "/w", "aggregatedOutput": "out" }"#
    ));
    let input = to_json(&v(r#"{ "filePath": " f " }"#));
    let diffs = FileDiffs { patch_changes: None, edit_diff: Some("D".to_string()) };
    let item = to_value(&build_tool_item("i", "fileChange", "edit", "failed", Some(&input), Some(" "), None, &diffs));
    assert_eq!(item["changes"], v(r#"[{ "path": "f", "kind": "modify", "diff": "D" }]"#));
    assert!(item.get("output").is_none());
    let given = Some(vec![to_json(&v(r#"{ "path": "g" }"#))]);
    let item = to_value(&build_tool_item("i", "fileChange", "edit", "failed", Some(&input), None, given, &diffs));
    assert_eq!(item["changes"], v(r#"[{ "path": "g" }]"#));
}

#[test]
fn explorations_are_labelled() {
    let entry = |tool: &str, title: &str, input: &str| {
        to_value(&build_explore_entry(tool, title, Some(&to_json(&v(input)))))
    };
    assert_eq!(entry("read", "", r#"{ "filePath": "a/b.rs" }"#), v(
        r#"{ "kind": "read", "label": "b.rs", "detail": "a/b.rs" }"#
    ));
    assert_eq!(entry("read", "", "{}"), v(r#"{ "kind": "read", "label": "file" }"#));
    assert_eq!(entry("grep", "p", r#"{ "path": "src" }"#)["label"], "p in src");
    assert_eq!(entry("ls", "", "{}")["label"], ".");
    assert_eq!(entry("other", "t", "{}"), v(r#"{ "kind": "run", "label": "t" }"#));
}

#[test]
fn context_windows_are_found_in_three_ways() {
    let mut state = new_state();
    let mut windows: StrMap<u64> = StrMap::new();
    windows.insert("p/m", 1);
    windows.insert("q/x/y", 2);
    windows.insert("p/z", 3);
    state.replace_model_context_windows(windows);
    assert_eq!(state.model_context_window(" p ", " m "), Some(1));
    assert_eq!(state.model_context_window("", "p/m"), Some(1));
    assert_eq!(state.model_context_window("q", "x/y"), Some(2));
    assert_eq!(state.model_context_window("p", "other/z"), Some(3));
    assert_eq!(state.model_context_window("", "z"), None);
    assert_eq!(state.model_context_window("", ""), None);
}

#[test]
fn counts_that_do_not_fit_are_refused() {
    let mut state = new_state();
    let tokens = to_json(&v(
        r#"{ "type": "message.updated", "properties": { "info": { "inputTokens": 18446744073709551615, "outputTokens": 1 } } }"#,
    ));
    assert!(!can_translate(&tokens, &state));
    state.get_turn_state_mut("s").agent_message_text_len = usize::MAX;
    let delta = to_json(&v(r#"{ "type": "message.part.delta", "properties": { "delta": "x" } }"#));
    assert!(!can_translate(&delta, &state));
    let update = to_json(&v(
        r#"{ "type": "message.part.updated", "properties": { "delta": "x", "part": { "type": "text" } } }"#,
    ));
    assert!(!can_translate(&update, &state));
    let other = to_json(&v(
        r#"{ "type": "message.part.updated", "properties": { "delta": "x", "part": { "type": "text", "id": "new" } } }"#,
    ));
    assert!(can_translate(&other, &state));
}

#[test]
fn the_input_of_a_tool_is_handed_to_the_diff_generator() {
    let event = to_json(&v(
        r#"{ "type": "message.part.updated", "properties": { "part": { "state": { "input": { "x": 1 } } } } }"#,
    ));
    assert_eq!(event_tool_input(&event).map(to_value), Some(v(r#"{ "x": 1 }"#)));
    let other = to_json(&v(r#"{ "type": "session.idle" }"#));
    assert!(event_tool_input(&other).is_none());
}

#[test]
fn removed_parts_are_forgotten() {
    let mut state = new_state();
    let tool = r#"{ "part": { "type": "tool", "id": "t", "tool": "bash", "state": { "status": "running" } } }"#;
    let before = send(&mut state, "message.part.updated", tool);
    assert!(send(&mut state, "message.part.removed", r#"{ "partID": "t" }"#).is_empty());
    let after = send(&mut state, "message.part.updated", tool);
    assert_ne!(before[0]["params"]["item"]["id"], after[0]["params"]["item"]["id"]);
}
