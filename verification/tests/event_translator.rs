use opencode_monitor::event_translator;
use opencode_monitor::session_state::SessionTranslationState;
use opencode_monitor::str_map::StrMap;
use opencode_monitor::tool_items::FileDiffs;

use opencode_monitor::json::{Json, JsonNumber};
use serde_json::{Number, Value};

fn v(text: &str) -> Value {
    serde_json::from_str(text).expect("valid JSON")
}

fn to_json(value: &Value) -> Json {
    match value {
        Value::Null => Json::Null,
        Value::Bool(b) => Json::Bool(*b),
        Value::Number(n) => {
            if let Some(u) = n.as_u64() {
                Json::Number(JsonNumber::Unsigned(u))
            } else if let Some(i) = n.as_i64() {
                Json::Number(JsonNumber::Negative(i))
            } else {
                Json::Number(JsonNumber::Float(n.to_string()))
            }
        }
        Value::String(s) => Json::Text(s.clone()),
        Value::Array(items) => Json::Array(items.iter().map(to_json).collect()),
        Value::Object(map) => {
            Json::Object(map.iter().map(|(k, item)| (k.clone(), to_json(item))).collect())
        }
    }
}

fn to_value(json: &Json) -> Value {
    match json {
        Json::Null => Value::Null,
        Json::Bool(b) => Value::Bool(*b),
        Json::Number(JsonNumber::Unsigned(n)) => Value::from(*n),
        Json::Number(JsonNumber::Negative(n)) => Value::from(*n),
        Json::Number(JsonNumber::Float(s)) => Value::Number(s.parse::<Number>().expect("number")),
        Json::Text(s) => Value::String(s.clone()),
        Json::Array(items) => Value::Array(items.iter().map(to_value).collect()),
        Json::Object(entries) => {
            let mut map = serde_json::Map::new();
            for (k, item) in entries {
                map.insert(k.clone(), to_value(item));
            }
            Value::Object(map)
        }
    }
}

fn no_diffs() -> FileDiffs {
    FileDiffs { patch_changes: None, edit_diff: None }
}

fn translate_with(event: &Value, state: &mut SessionTranslationState, diffs: &FileDiffs) -> Vec<Value> {
    let event = to_json(event);
    assert!(event_translator::can_translate(&event, state));
    event_translator::translate_sse_event(&event, state, diffs).iter().map(to_value).collect()
}

fn translate_sse_event(event: &Value, state: &mut SessionTranslationState) -> Vec<Value> {
    translate_with(event, state, &no_diffs())
}

fn build_turn_started(session_id: &str, turn_id: &str) -> Value {
    to_value(&event_translator::build_turn_started(session_id, turn_id))
}

fn build_turn_completed(session_id: &str, turn_id: &str) -> Value {
    to_value(&event_translator::build_turn_completed(session_id, turn_id))
}

fn build_permission_response(decision: &str) -> Value {
    to_value(&event_translator::build_permission_response(decision))
}

fn extract_model_context_windows(providers: &Value) -> StrMap<u64> {
    event_translator::extract_model_context_windows(&to_json(providers))
}

fn make_state() -> SessionTranslationState {
    let mut s = SessionTranslationState::new("ses_test123".into());
    s.start_turn("ses_test123".into(), "turn_1".into());
    s
}

#[test]
fn text_part_produces_agent_message_delta() {
    let mut state = make_state();
    let event = v(r#"{
        "type": "message.part.updated",
        "properties": {
            "part": {
                "type": "text",
                "id": "part_1",
                "sessionID": "ses_test123",
                "text": "Hello world"
            },
            "delta": "Hello world"
        }
    }"#);
    let events = translate_sse_event(&event, &mut state);
    assert_eq!(events.len(), 1);
    assert_eq!(events[0]["method"], "item/agentMessage/delta");
    assert_eq!(events[0]["params"]["threadId"], "ses_test123");
    assert_eq!(events[0]["params"]["delta"], "Hello world");
    // Same item ID on second call.
    let item_id = events[0]["params"]["itemId"].as_str().unwrap().to_string();
    let events2 = translate_sse_event(&event, &mut state);
    assert_eq!(events2[0]["params"]["itemId"].as_str().unwrap(), item_id);
}

#[test]
fn reasoning_part_produces_reasoning_delta() {
    let mut state = make_state();
    let event = v(r#"{
        "type": "message.part.updated",
        "properties": {
            "part": {
                "type": "reasoning",
                "id": "part_r1",
                "sessionID": "ses_test123"
            },
            "delta": "Let me think..."
        }
    }"#);
    let events = translate_sse_event(&event, &mut state);
    assert_eq!(events.len(), 1);
    assert_eq!(events[0]["method"], "item/reasoning/textDelta");
    assert_eq!(events[0]["params"]["delta"], "Let me think...");
}

#[test]
fn tool_part_pending_produces_item_started() {
    let mut state = make_state();
    let event = v(r#"{
        "type": "message.part.updated",
        "properties": {
            "part": {
                "type": "tool",
                "id": "tc_1",
                "sessionID": "ses_test123",
                "tool": "bash",
                "state": {
                    "status": "running",
                    "input": { "command": ["ls", "-la"] }
                }
            }
        }
    }"#);
    let events = translate_sse_event(&event, &mut state);
    assert!(events.len() >= 1);
    assert_eq!(events[0]["method"], "item/started");
    assert_eq!(events[0]["params"]["item"]["type"], "commandExecution");
}

#[test]
fn tool_part_completed_produces_item_completed() {
    let mut state = make_state();
    // First register the tool.
    let running = v(r#"{
        "type": "message.part.updated",
        "properties": {
            "part": {
                "type": "tool",
                "id": "tc_2",
                "tool": "edit",
                "state": { "status": "running", "input": { "filePath": "foo.rs" } }
            }
        }
    }"#);
    translate_sse_event(&running, &mut state);

    let completed = v(r#"{
        "type": "message.part.updated",
        "properties": {
            "part": {
                "type": "tool",
                "id": "tc_2",
                "tool": "edit",
                "state": {
                    "status": "completed",
                    "input": { "filePath": "foo.rs" },
                    "output": "File written."
                }
            }
        }
    }"#);
    let events = translate_sse_event(&completed, &mut state);
    assert_eq!(events.len(), 1);
    assert_eq!(events[0]["method"], "item/completed");
    assert_eq!(events[0]["params"]["item"]["type"], "fileChange");
    assert_eq!(events[0]["params"]["item"]["status"], "completed");
}

#[test]
fn edit_tool_generates_unified_diff() {
    let mut state = make_state();
    let completed = v(r#"{
        "type": "message.part.updated",
        "properties": {
            "part": {
                "type": "tool",
                "id": "tc_edit_diff",
                "tool": "edit",
                "state": {
                    "status": "completed",
                    "input": {
                        "filePath": "src/main.rs",
                        "oldString": "fn main() {\n    println!(\"Hello\");\n}",
                        "newString": "fn main() {\n    println!(\"Hello, world!\");\n}"
                    },
                    "output": "File edited."
                }
            }
        }
    }"#);
    let diffs = FileDiffs {
        patch_changes: None,
        edit_diff: Some(
            "--- a/src/main.rs\n+++ b/src/main.rs\n@@ -1,3 +1,3 @@\n fn main() {\n-    println!(\"Hello\");\n+    println!(\"Hello, world!\");\n }"
                .to_string(),
        ),
    };
    let events = translate_with(&completed, &mut state, &diffs);
    assert_eq!(events.len(), 1);
    assert_eq!(events[0]["method"], "item/completed");
    let item = &events[0]["params"]["item"];
    assert_eq!(item["type"], "fileChange");

    let changes = item["changes"].as_array().expect("changes should be array");
    assert_eq!(changes.len(), 1);
    assert_eq!(changes[0]["path"], "src/main.rs");

    let diff = changes[0]["diff"].as_str().expect("diff should be string");
    assert!(diff.contains("--- a/src/main.rs"));
    assert!(diff.contains("+++ b/src/main.rs"));
    assert!(diff.contains("@@"));
    assert!(diff.contains("-    println!(\"Hello\");"));
    assert!(diff.contains("+    println!(\"Hello, world!\");"));
}

#[test]
fn apply_patch_tool_generates_file_change_entries() {
    let mut state = make_state();
    let completed = v(r#"{
        "type": "message.part.updated",
        "properties": {
            "part": {
                "type": "tool",
                "id": "tc_apply_patch",
                "tool": "apply_patch",
                "state": {
                    "status": "completed",
                    "input": {
                        "patchText": "*** Begin Patch\n*** Update File: src/main.rs\n@@ -1,1 +1,1 @@\n-old\n+new\n*** Add File: notes.txt\n+hello\n*** Delete File: old.txt\n*** Update File: src/from.rs\n*** Move to: src/to.rs\n@@ -1,1 +1,1 @@\n-before\n+after\n*** End Patch"
                    },
                    "output": "Patch applied successfully."
                }
            }
        }
    }"#);

    let changes = v(r#"[
        { "path": "src/main.rs", "kind": "modify", "diff": "--- a/src/main.rs\n+++ b/src/main.rs\n@@ -1,1 +1,1 @@\n-old\n+new" },
        { "path": "notes.txt", "kind": "add", "diff": "--- /dev/null\n+++ b/notes.txt\n@@ -0,0 +1,1 @@\n+hello" },
        { "path": "old.txt", "kind": "delete" },
        { "path": "src/to.rs", "kind": "modify", "diff": "--- a/src/from.rs\n+++ b/src/to.rs\n@@ -1,1 +1,1 @@\n-before\n+after" }
    ]"#);
    let diffs = FileDiffs {
        patch_changes: Some(changes.as_array().expect("array").iter().map(to_json).collect()),
        edit_diff: None,
    };
    let events = translate_with(&completed, &mut state, &diffs);
    assert_eq!(events.len(), 1);
    let item = &events[0]["params"]["item"];
    assert_eq!(item["type"], "fileChange");

    let changes = item["changes"].as_array().expect("changes should be array");
    assert_eq!(changes.len(), 4);
    assert_eq!(changes[0]["path"], "src/main.rs");
    assert_eq!(changes[0]["kind"], "modify");
    assert!(changes[0]["diff"]
        .as_str()
        .expect("modify diff")
        .contains("--- a/src/main.rs"));

    assert_eq!(changes[1]["path"], "notes.txt");
    assert_eq!(changes[1]["kind"], "add");
    assert!(changes[1]["diff"]
        .as_str()
        .expect("add diff")
        .contains("--- /dev/null"));

    assert_eq!(changes[2]["path"], "old.txt");
    assert_eq!(changes[2]["kind"], "delete");
    assert!(changes[2].get("diff").is_none());

    assert_eq!(changes[3]["path"], "src/to.rs");
    let rename_diff = changes[3]["diff"].as_str().expect("rename diff");
    assert!(rename_diff.contains("--- a/src/from.rs"));
    assert!(rename_diff.contains("+++ b/src/to.rs"));
}

#[test]
fn apply_patch_running_delta_uses_summary_not_patch_text() {
    let mut state = make_state();
    let running = v(r#"{
        "type": "message.part.updated",
        "properties": {
            "part": {
                "type": "tool",
                "id": "tc_apply_patch_running",
                "tool": "apply_patch",
                "state": {
                    "status": "running",
                    "input": {
                        "patchText": "*** Begin Patch\n*** Update File: src/main.rs\n@@ -1,1 +1,1 @@\n-old\n+new\n*** Add File: notes.txt\n+hello\n*** End Patch"
                    }
                }
            }
        }
    }"#);

    let changes = v(r#"[
        { "path": "src/main.rs", "kind": "modify" },
        { "path": "notes.txt", "kind": "add" }
    ]"#);
    let diffs = FileDiffs {
        patch_changes: Some(changes.as_array().expect("array").iter().map(to_json).collect()),
        edit_diff: None,
    };
    let events = translate_with(&running, &mut state, &diffs);
    assert_eq!(events.len(), 2);
    assert_eq!(events[0]["method"], "item/started");
    assert_eq!(events[1]["method"], "item/fileChange/outputDelta");
    let delta = events[1]["params"]["delta"].as_str().expect("delta string");
    assert!(delta.contains("Applying patch to 2 files"));
    assert!(delta.contains("modify src/main.rs"));
    assert!(delta.contains("add notes.txt"));
    assert!(!delta.contains("*** Begin Patch"));
    assert!(!delta.contains("patchText"));
}

#[test]
fn text_after_tool_completion_uses_new_agent_message_item() {
    let mut state = make_state();

    let first_text = v(r#"{
        "type": "message.part.updated",
        "properties": {
            "part": {
                "type": "text",
                "id": "part_before_tool",
                "sessionID": "ses_test123"
            },
            "delta": "Before tool call."
        }
    }"#);
    let before_events = translate_sse_event(&first_text, &mut state);
    let before_item_id = before_events[0]["params"]["itemId"]
        .as_str()
        .unwrap()
        .to_string();

    let tool_running = v(r#"{
        "type": "message.part.updated",
        "properties": {
            "part": {
                "type": "tool",
                "id": "tc_split_1",
                "sessionID": "ses_test123",
                "tool": "bash",
                "state": {
                    "status": "running",
                    "input": { "command": ["pwd"] }
                }
            }
        }
    }"#);
    translate_sse_event(&tool_running, &mut state);

    let tool_completed = v(r#"{
        "type": "message.part.updated",
        "properties": {
            "part": {
                "type": "tool",
                "id": "tc_split_1",
                "sessionID": "ses_test123",
                "tool": "bash",
                "state": {
                    "status": "completed",
                    "input": { "command": ["pwd"] },
                    "output": "/Users/jacob"
                }
            }
        }
    }"#);
    translate_sse_event(&tool_completed, &mut state);

    let second_text = v(r#"{
        "type": "message.part.updated",
        "properties": {
            "part": {
                "type": "text",
                "id": "part_after_tool",
                "sessionID": "ses_test123"
            },
            "delta": "After tool call."
        }
    }"#);
    let after_events = translate_sse_event(&second_text, &mut state);
    let after_item_id = after_events[0]["params"]["itemId"]
        .as_str()
        .unwrap()
        .to_string();

    assert_ne!(before_item_id, after_item_id);
}

#[test]
fn message_updated_produces_token_usage() {
    let mut state = make_state();
    let event = v(r#"{
        "type": "message.updated",
        "properties": {
            "info": {
                "inputTokens": 5000,
                "outputTokens": 1000,
                "cachedInputTokens": 200,
                "reasoningOutputTokens": 50
            }
        }
    }"#);
    let events = translate_sse_event(&event, &mut state);
    assert_eq!(events.len(), 1);
    assert_eq!(events[0]["method"], "thread/tokenUsage/updated");
    assert_eq!(
        events[0]["params"]["tokenUsage"]["total"]["totalTokens"],
        6000
    );
    assert_eq!(
        events[0]["params"]["tokenUsage"]["total"]["inputTokens"],
        5000
    );
    assert_eq!(
        events[0]["params"]["tokenUsage"]["total"]["outputTokens"],
        1000
    );
}

#[test]
fn message_updated_uses_model_context_window_when_available() {
    let mut state = make_state();
    let mut windows: StrMap<u64> = StrMap::new();
    windows.insert("acme/model-sonnet-4-5", 200_000);
    state.replace_model_context_windows(windows);

    let event = v(r#"{
        "type": "message.updated",
        "properties": {
            "info": {
                "providerID": "acme",
                "modelID": "model-sonnet-4-5",
                "tokens": {
                    "input": 1200,
                    "output": 300,
                    "reasoning": 50,
                    "cache": { "read": 25, "write": 0 }
                }
            }
        }
    }"#);

    let events = translate_sse_event(&event, &mut state);
    assert_eq!(events.len(), 1);
    assert_eq!(events[0]["method"], "thread/tokenUsage/updated");
    assert_eq!(
        events[0]["params"]["tokenUsage"]["modelContextWindow"],
        200_000
    );
}

#[test]
fn extract_model_context_windows_reads_provider_limits() {
    let payload = v(r#"{
        "providers": [
            {
                "id": "acme",
                "models": {
                    "model-sonnet-4-5": {
                        "id": "model-sonnet-4-5",
                        "limit": {
                            "context": 200000,
                            "output": 8192
                        }
                    },
                    "model-haiku-4-5": {
                        "id": "model-haiku-4-5",
                        "limit": {
                            "context": "100000"
                        }
                    }
                }
            }
        ]
    }"#);

    let windows = extract_model_context_windows(&payload);
    assert_eq!(windows.get("acme/model-sonnet-4-5"), Some(&200_000));
    assert_eq!(windows.get("acme/model-haiku-4-5"), Some(&100_000));
}

#[test]
fn session_status_idle_produces_turn_completed() {
    let mut state = make_state();
    let event = v(r#"{
        "type": "session.status",
        "properties": {
            "sessionID": "ses_test123",
            "status": { "type": "idle" }
        }
    }"#);
    let events = translate_sse_event(&event, &mut state);
    assert!(events.iter().any(|e| e["method"] == "turn/completed"));
}

#[test]
fn session_status_idle_without_active_turn_still_completes() {
    let mut state = SessionTranslationState::new(String::new());
    let event = v(r#"{
        "type": "session.status",
        "properties": {
            "sessionID": "ses_background_1",
            "status": { "type": "idle" }
        }
    }"#);

    let events = translate_sse_event(&event, &mut state);
    assert_eq!(events.len(), 1);
    assert_eq!(events[0]["method"], "turn/completed");
    assert_eq!(events[0]["params"]["threadId"], "ses_background_1");
    assert_eq!(events[0]["params"]["turn"]["id"], "");
}

#[test]
fn session_error_produces_error_event_without_active_turn() {
    let mut state = SessionTranslationState::new(String::new());
    let event = v(r#"{
        "type": "session.error",
        "properties": {
            "sessionID": "ses_background_2",
            "error": {
                "name": "BadRequestError",
                "data": {
                    "message": "model not available"
                }
            }
        }
    }"#);

    let events = translate_sse_event(&event, &mut state);
    assert_eq!(events.len(), 1);
    assert_eq!(events[0]["method"], "error");
    assert_eq!(events[0]["params"]["threadId"], "ses_background_2");
    assert_eq!(events[0]["params"]["turnId"], "");
    assert_eq!(events[0]["params"]["error"]["message"], "model not available");
}

#[test]
fn session_status_active_produces_turn_started_when_missing() {
    let mut state = SessionTranslationState::new(String::new());
    let event = v(r#"{
        "type": "session.status",
        "properties": {
            "sessionID": "ses_subagent_1",
            "status": { "type": "active" }
        }
    }"#);

    let events = translate_sse_event(&event, &mut state);
    assert_eq!(events.len(), 1);
    assert_eq!(events[0]["method"], "turn/started");
    assert_eq!(events[0]["params"]["threadId"], "ses_subagent_1");
    assert!(events[0]["params"]["turn"]["id"]
        .as_str()
        .unwrap_or_default()
        .starts_with("turn_rest_"));
}

#[test]
fn session_status_active_is_ignored_when_turn_already_active() {
    let mut state = SessionTranslationState::new(String::new());
    state.start_turn("ses_subagent_1".into(), "turn_existing".into());
    let event = v(r#"{
        "type": "session.status",
        "properties": {
            "sessionID": "ses_subagent_1",
            "status": { "type": "active" }
        }
    }"#);

    let events = translate_sse_event(&event, &mut state);
    assert!(events.is_empty());
}

#[test]
fn session_created_emits_thread_started_and_name_with_parent() {
    let mut state = SessionTranslationState::new(String::new());
    let event = v(r#"{
        "type": "session.created",
        "properties": {
            "session": {
                "id": "ses_child",
                "title": "Explore session handling (subagent)",
                "parentID": "ses_parent",
                "updatedAt": 1700000000
            }
        }
    }"#);

    let events = translate_sse_event(&event, &mut state);
    assert_eq!(events.len(), 2);
    assert_eq!(events[0]["method"], "thread/started");
    assert_eq!(events[0]["params"]["thread"]["id"], "ses_child");
    assert_eq!(events[0]["params"]["thread"]["parentId"], "ses_parent");
    assert_eq!(
        events[0]["params"]["thread"]["preview"],
        "Explore session handling (subagent)"
    );
    assert_eq!(events[1]["method"], "thread/name/updated");
    assert_eq!(events[1]["params"]["threadId"], "ses_child");
    assert_eq!(
        events[1]["params"]["threadName"],
        "Explore session handling (subagent)"
    );
}

#[test]
fn concurrent_sessions_get_correct_turn_ids() {
    let mut state = SessionTranslationState::new(String::new());

    // Session A starts a turn
    state.start_turn("ses_A".into(), "turn_A1".into());
    // Session B starts a turn (should NOT clobber A's turn)
    state.start_turn("ses_B".into(), "turn_B1".into());

    // Idle event for session A should use turn_A1, not turn_B1
    let event_a = v(r#"{
        "type": "session.status",
        "properties": {
            "sessionID": "ses_A",
            "status": { "type": "idle" }
        }
    }"#);
    let events = translate_sse_event(&event_a, &mut state);
    assert_eq!(events.len(), 1);
    assert_eq!(events[0]["method"], "turn/completed");
    assert_eq!(events[0]["params"]["threadId"], "ses_A");
    assert_eq!(events[0]["params"]["turn"]["id"], "turn_A1");

    // Idle event for session B should use turn_B1
    let event_b = v(r#"{
        "type": "session.status",
        "properties": {
            "sessionID": "ses_B",
            "status": { "type": "idle" }
        }
    }"#);
    let events = translate_sse_event(&event_b, &mut state);
    assert_eq!(events.len(), 1);
    assert_eq!(events[0]["params"]["turn"]["id"], "turn_B1");
}

#[test]
fn session_status_error_produces_error_event() {
    let mut state = make_state();
    let event = v(r#"{
        "type": "session.status",
        "properties": {
            "sessionID": "ses_test123",
            "status": { "type": "error", "message": "rate limited" }
        }
    }"#);
    let events = translate_sse_event(&event, &mut state);
    assert_eq!(events.len(), 1);
    assert_eq!(events[0]["method"], "error");
    assert_eq!(events[0]["params"]["error"]["message"], "rate limited");
}

#[test]
fn permission_asked_produces_approval_request() {
    let mut state = make_state();
    let event = v(r#"{
        "type": "permission.asked",
        "properties": {
            "id": "perm_42",
            "permission": "bash",
            "sessionID": "ses_test123",
            "patterns": ["rm -rf /tmp/test"]
        }
    }"#);
    let events = translate_sse_event(&event, &mut state);
    assert_eq!(events.len(), 1);
    assert_eq!(events[0]["method"], "codex/requestApproval");
    assert_eq!(events[0]["id"], "ses_test123:perm_42");
    assert_eq!(events[0]["params"]["permission"], "bash");
    assert_eq!(events[0]["params"]["command"][0], "rm -rf /tmp/test");
}

#[test]
fn turn_lifecycle_events() {
    let started = build_turn_started("ses_abc", "turn_1");
    assert_eq!(started["method"], "turn/started");
    assert_eq!(started["params"]["threadId"], "ses_abc");
    assert_eq!(started["params"]["turn"]["id"], "turn_1");

    let completed = build_turn_completed("ses_abc", "turn_1");
    assert_eq!(completed["method"], "turn/completed");
    assert_eq!(completed["params"]["turn"]["id"], "turn_1");
}

#[test]
fn permission_response_shapes() {
    let accept = build_permission_response("accept");
    assert_eq!(accept["reply"], "once");

    let always = build_permission_response("always");
    assert_eq!(always["reply"], "always");

    let deny = build_permission_response("decline");
    assert_eq!(deny["reply"], "reject");
}

#[test]
fn unknown_event_type_returns_empty() {
    let mut state = make_state();
    let event = v(r#"{
        "type": "some.unknown.event",
        "properties": {}
    }"#);
    let events = translate_sse_event(&event, &mut state);
    assert!(events.is_empty());
}

#[test]
fn chunk_text_preserves_whitespace() {
    let mut state = make_state();
    let event = v(r#"{
        "type": "message.part.updated",
        "properties": {
            "part": {
                "type": "text",
                "id": "part_ws",
                "sessionID": "ses_test123"
            },
            "delta": " line with trailing space "
        }
    }"#);
    let events = translate_sse_event(&event, &mut state);
    assert_eq!(events[0]["params"]["delta"], " line with trailing space ");
}

#[test]
fn part_delta_text_produces_agent_message_delta() {
    let mut state = make_state();
    let event = v(r#"{
        "type": "message.part.delta",
        "properties": {
            "sessionID": "ses_test123",
            "messageID": "msg_1",
            "partID": "prt_text_1",
            "field": "text",
            "delta": "hello"
        }
    }"#);
    let events = translate_sse_event(&event, &mut state);
    assert_eq!(events.len(), 1);
    assert_eq!(events[0]["method"], "item/agentMessage/delta");
    assert_eq!(events[0]["params"]["threadId"], "ses_test123");
    assert_eq!(events[0]["params"]["delta"], "hello");
}

#[test]
fn text_part_updated_uses_only_unseen_suffix_after_streamed_deltas() {
    let mut state = make_state();

    let delta1 = v(r#"{
        "type": "message.part.delta",
        "properties": {
            "sessionID": "ses_test123",
            "messageID": "msg_1",
            "partID": "prt_text_1",
            "field": "text",
            "delta": "I'm currently in Plan Mode (read-only), "
        }
    }"#);
    let events1 = translate_sse_event(&delta1, &mut state);
    assert_eq!(events1.len(), 1);
    assert_eq!(
        events1[0]["params"]["delta"],
        "I'm currently in Plan Mode (read-only), "
    );

    let delta2 = v(r#"{
        "type": "message.part.delta",
        "properties": {
            "sessionID": "ses_test123",
            "messageID": "msg_1",
            "partID": "prt_text_1",
            "field": "text",
            "delta": "so I can't make any file edits right now."
        }
    }"#);
    let events2 = translate_sse_event(&delta2, &mut state);
    assert_eq!(events2.len(), 1);
    assert_eq!(
        events2[0]["params"]["delta"],
        "so I can't make any file edits right now."
    );

    let updated = v(r#"{
        "type": "message.part.updated",
        "properties": {
            "part": {
                "type": "text",
                "id": "prt_text_1",
                "sessionID": "ses_test123",
                "messageID": "msg_1",
                "text": "I'm currently in Plan Mode (read-only), so I can't make any file edits right now.\n\nTo make edits, switch out of Plan Mode first."
            }
        }
    }"#);
    let events3 = translate_sse_event(&updated, &mut state);
    assert_eq!(events3.len(), 1);
    assert_eq!(events3[0]["method"], "item/agentMessage/delta");
    assert_eq!(
        events3[0]["params"]["delta"],
        "\n\nTo make edits, switch out of Plan Mode first."
    );
}

#[test]
fn user_text_part_updated_emits_user_message_item() {
    let mut state = make_state();

    let message_updated = v(r#"{
        "type": "message.updated",
        "properties": {
            "info": {
                "id": "msg_user_1",
                "sessionID": "ses_test123",
                "role": "user"
            }
        }
    }"#);
    let _ = translate_sse_event(&message_updated, &mut state);

    let part_updated = v(r#"{
        "type": "message.part.updated",
        "properties": {
            "part": {
                "type": "text",
                "id": "prt_user_text_1",
                "sessionID": "ses_test123",
                "messageID": "msg_user_1",
                "text": "User prompt text"
            }
        }
    }"#);
    let events = translate_sse_event(&part_updated, &mut state);
    assert_eq!(events.len(), 1);
    assert_eq!(events[0]["method"], "item/completed");
    assert_eq!(events[0]["params"]["item"]["type"], "userMessage");
    assert_eq!(
        events[0]["params"]["item"]["content"][0]["text"],
        "User prompt text"
    );
}

#[test]
fn user_text_part_delta_emits_user_message_item() {
    let mut state = make_state();

    let message_updated = v(r#"{
        "type": "message.updated",
        "properties": {
            "info": {
                "id": "msg_user_1",
                "sessionID": "ses_test123",
                "role": "user"
            }
        }
    }"#);
    let _ = translate_sse_event(&message_updated, &mut state);

    let part_delta = v(r#"{
        "type": "message.part.delta",
        "properties": {
            "sessionID": "ses_test123",
            "messageID": "msg_user_1",
            "partID": "prt_user_text_1",
            "field": "text",
            "delta": "User prompt text"
        }
    }"#);
    let events = translate_sse_event(&part_delta, &mut state);
    assert_eq!(events.len(), 1);
    assert_eq!(events[0]["method"], "item/completed");
    assert_eq!(events[0]["params"]["item"]["type"], "userMessage");
    assert_eq!(
        events[0]["params"]["item"]["content"][0]["text"],
        "User prompt text"
    );
}

#[test]
fn user_text_accumulates_across_deltas() {
    let mut state = make_state();

    let message_updated = v(r#"{
        "type": "message.updated",
        "properties": {
            "info": {
                "id": "msg_user_1",
                "sessionID": "ses_test123",
                "role": "user"
            }
        }
    }"#);
    let _ = translate_sse_event(&message_updated, &mut state);

    let delta1 = v(r#"{
        "type": "message.part.delta",
        "properties": {
            "sessionID": "ses_test123",
            "messageID": "msg_user_1",
            "partID": "prt_user_text_1",
            "field": "text",
            "delta": "Hello "
        }
    }"#);
    let events1 = translate_sse_event(&delta1, &mut state);
    assert_eq!(events1[0]["params"]["item"]["content"][0]["text"], "Hello ");

    let delta2 = v(r#"{
        "type": "message.part.delta",
        "properties": {
            "sessionID": "ses_test123",
            "messageID": "msg_user_1",
            "partID": "prt_user_text_1",
            "field": "text",
            "delta": "world"
        }
    }"#);
    let events2 = translate_sse_event(&delta2, &mut state);
    assert_eq!(
        events2[0]["params"]["item"]["content"][0]["text"],
        "Hello world"
    );

    // Both emissions use the same stable item ID
    assert_eq!(
        events1[0]["params"]["item"]["id"],
        events2[0]["params"]["item"]["id"]
    );
}

#[test]
fn session_active_preserves_in_progress_user_message_stream_state() {
    let mut state = make_state();

    let _ = translate_sse_event(
        &v(r#"{
            "type": "message.updated",
            "properties": {
                "info": {
                    "id": "msg_user_1",
                    "sessionID": "ses_test123",
                    "role": "user"
                }
            }
        }"#),
        &mut state,
    );

    let first = translate_sse_event(
        &v(r#"{
            "type": "message.part.updated",
            "properties": {
                "part": {
                    "type": "text",
                    "id": "prt_user_text_1",
                    "sessionID": "ses_test123",
                    "messageID": "msg_user_1",
                    "text": "Give me a quick summary"
                }
            }
        }"#),
        &mut state,
    );
    let first_item_id = first[0]["params"]["item"]["id"].clone();

    let active_events = translate_sse_event(
        &v(r#"{
            "type": "session.status",
            "properties": {
                "sessionID": "ses_test123",
                "status": { "type": "active" }
            }
        }"#),
        &mut state,
    );
    // Turn is already active from make_state(), so session.status=active is a no-op
    assert_eq!(active_events.len(), 0);

    let second = translate_sse_event(
        &v(r#"{
            "type": "message.part.delta",
            "properties": {
                "sessionID": "ses_test123",
                "messageID": "msg_user_1",
                "partID": "prt_user_text_1",
                "field": "text",
                "delta": " of the docs folder"
            }
        }"#),
        &mut state,
    );

    assert_eq!(second.len(), 1);
    assert_eq!(second[0]["method"], "item/completed");
    assert_eq!(second[0]["params"]["item"]["id"], first_item_id);
    assert_eq!(
        second[0]["params"]["item"]["content"][0]["text"],
        "Give me a quick summary of the docs folder"
    );
}

#[test]
fn user_text_part_updated_does_not_produce_agent_message_delta() {
    let mut state = make_state();

    let message_updated = v(r#"{
        "type": "message.updated",
        "properties": {
            "info": {
                "id": "msg_user_1",
                "sessionID": "ses_test123",
                "role": "user"
            }
        }
    }"#);
    let _ = translate_sse_event(&message_updated, &mut state);

    let part_updated = v(r#"{
        "type": "message.part.updated",
        "properties": {
            "part": {
                "type": "text",
                "id": "prt_user_text_1",
                "sessionID": "ses_test123",
                "messageID": "msg_user_1",
                "text": "User prompt text"
            }
        }
    }"#);
    let events = translate_sse_event(&part_updated, &mut state);
    // Should produce a userMessage item, NOT an agentMessage delta
    assert_eq!(events.len(), 1);
    assert_eq!(events[0]["method"], "item/completed");
    assert_ne!(events[0]["method"], "item/agentMessage/delta");
}

#[test]
fn concurrent_sessions_isolate_user_message_text() {
    let mut state = SessionTranslationState::new(String::new());

    // Parent session: register user message role
    let _ = translate_sse_event(
        &v(r#"{
            "type": "message.updated",
            "properties": {
                "info": { "id": "msg_parent_user", "sessionID": "ses_parent", "role": "user" }
            }
        }"#),
        &mut state,
    );

    // Parent session: user text arrives
    let parent_events = translate_sse_event(
        &v(r#"{
            "type": "message.part.updated",
            "properties": {
                "part": {
                    "type": "text",
                    "id": "prt_parent_text",
                    "sessionID": "ses_parent",
                    "messageID": "msg_parent_user",
                    "text": "spin up an explore subagent"
                }
            }
        }"#),
        &mut state,
    );
    assert_eq!(parent_events.len(), 1);
    assert_eq!(
        parent_events[0]["params"]["item"]["content"][0]["text"],
        "spin up an explore subagent"
    );

    // Subagent session created
    let _ = translate_sse_event(
        &v(r#"{
            "type": "session.created",
            "properties": {
                "session": {
                    "id": "ses_child",
                    "title": "Explore subagent",
                    "parentID": "ses_parent"
                }
            }
        }"#),
        &mut state,
    );

    // Subagent session: register user message role
    let _ = translate_sse_event(
        &v(r#"{
            "type": "message.updated",
            "properties": {
                "info": { "id": "msg_child_user", "sessionID": "ses_child", "role": "user" }
            }
        }"#),
        &mut state,
    );

    // Subagent session: user text arrives — must NOT include parent's text
    let child_events = translate_sse_event(
        &v(r#"{
            "type": "message.part.updated",
            "properties": {
                "part": {
                    "type": "text",
                    "id": "prt_child_text",
                    "sessionID": "ses_child",
                    "messageID": "msg_child_user",
                    "text": "Explore the codebase"
                }
            }
        }"#),
        &mut state,
    );
    assert_eq!(child_events.len(), 1);
    assert_eq!(
        child_events[0]["params"]["item"]["content"][0]["text"],
        "Explore the codebase"
    );
    assert_eq!(child_events[0]["params"]["threadId"], "ses_child");

    // Verify parent and child use different item IDs
    assert_ne!(
        parent_events[0]["params"]["item"]["id"],
        child_events[0]["params"]["item"]["id"]
    );
}

#[test]
fn prepare_replay_preserves_user_message_item_id() {
    let mut state = SessionTranslationState::new(String::new());

    // Simulate live SSE: register user role and emit user text
    let _ = translate_sse_event(
        &v(r#"{
            "type": "message.updated",
            "properties": {
                "info": { "id": "msg_u1", "sessionID": "ses_sub", "role": "user" }
            }
        }"#),
        &mut state,
    );
    let live_events = translate_sse_event(
        &v(r#"{
            "type": "message.part.updated",
            "properties": {
                "part": {
                    "type": "text",
                    "id": "prt_u1",
                    "sessionID": "ses_sub",
                    "messageID": "msg_u1",
                    "text": "subagent prompt"
                }
            }
        }"#),
        &mut state,
    );
    let live_id = live_events[0]["params"]["item"]["id"].as_str().unwrap();

    // prepare_replay should preserve the user_message_item_id
    state.prepare_replay("ses_sub".into());
    let replay_id = state.user_message_item("ses_sub");
    assert_eq!(replay_id, live_id, "replay must reuse the live SSE item ID");
}

#[test]
fn replay_user_message_boundary_allocates_new_user_item_id() {
    let mut state = SessionTranslationState::new(String::new());
    state.prepare_replay("ses_sub".into());

    let first = state.user_message_item("ses_sub");
    state.mark_new_replayed_user_message_boundary();
    let second = state.user_message_item("ses_sub");

    assert_ne!(
        first, second,
        "each replayed user message should get its own item ID"
    );
}

#[test]
fn user_message_id_always_lower_than_tool_ids_in_turn() {
    let mut state = SessionTranslationState::new("ses_test".into());

    // Simulate turn starting with session.status=active
    state.start_turn("ses_test".into(), "turn_1".into());

    // Get user message ID (should be pre-allocated by start_turn)
    let user_id = state.user_message_item("ses_test");

    // Simulate tool calls getting IDs
    let tool_id_1 = state.next_item_id();
    let tool_id_2 = state.next_item_id();

    // Parse sequence numbers
    let user_seq: u64 = user_id.strip_prefix("item_").unwrap().parse().unwrap();
    let tool_seq_1: u64 = tool_id_1.strip_prefix("item_").unwrap().parse().unwrap();
    let tool_seq_2: u64 = tool_id_2.strip_prefix("item_").unwrap().parse().unwrap();

    assert!(
        user_seq < tool_seq_1,
        "User message ID ({user_id}) must be lower than first tool ID ({tool_id_1})"
    );
    assert!(
        user_seq < tool_seq_2,
        "User message ID ({user_id}) must be lower than second tool ID ({tool_id_2})"
    );
}

#[test]
fn start_turn_preserves_existing_user_message_id() {
    let mut state = SessionTranslationState::new("ses_test".into());

    // Simulate user message arriving BEFORE session.status=active
    let early_user_id = state.user_message_item("ses_test");

    // Now turn starts - should preserve the existing user message ID
    state.start_turn("ses_test".into(), "turn_1".into());

    // Get user message ID again - should be the same
    let after_start_id = state.user_message_item("ses_test");

    assert_eq!(
        early_user_id, after_start_id,
        "start_turn must preserve existing user message ID"
    );

    // Tool IDs should still be higher
    let tool_id = state.next_item_id();
    let user_seq: u64 = early_user_id
        .strip_prefix("item_")
        .unwrap()
        .parse()
        .unwrap();
    let tool_seq: u64 = tool_id.strip_prefix("item_").unwrap().parse().unwrap();

    assert!(
        user_seq < tool_seq,
        "User message ID ({early_user_id}) must be lower than tool ID ({tool_id})"
    );
}

#[test]
fn part_delta_routes_reasoning_by_part_id() {
    let mut state = make_state();

    // First, announce a reasoning part via message.part.updated.
    let reasoning_announce = v(r#"{
        "type": "message.part.updated",
        "properties": {
            "part": {
                "type": "reasoning",
                "id": "prt_reasoning_1",
                "sessionID": "ses_test123",
                "text": ""
            }
        }
    }"#);
    translate_sse_event(&reasoning_announce, &mut state);

    // Now a delta for that reasoning part should produce reasoning event.
    let delta_event = v(r#"{
        "type": "message.part.delta",
        "properties": {
            "sessionID": "ses_test123",
            "partID": "prt_reasoning_1",
            "field": "text",
            "delta": "thinking..."
        }
    }"#);
    let events = translate_sse_event(&delta_event, &mut state);
    assert_eq!(events.len(), 1);
    assert_eq!(events[0]["method"], "item/reasoning/textDelta");
    assert_eq!(events[0]["params"]["delta"], "thinking...");
}

#[test]
fn part_removed_resets_reasoning_mapping_for_next_part() {
    let mut state = make_state();

    let reasoning_announce_1 = v(r#"{
        "type": "message.part.updated",
        "properties": {
            "part": {
                "type": "reasoning",
                "id": "prt_reasoning_1",
                "sessionID": "ses_test123",
                "text": ""
            }
        }
    }"#);
    translate_sse_event(&reasoning_announce_1, &mut state);

    let first_delta = v(r#"{
        "type": "message.part.delta",
        "properties": {
            "sessionID": "ses_test123",
            "partID": "prt_reasoning_1",
            "field": "text",
            "delta": "thinking..."
        }
    }"#);
    let first_events = translate_sse_event(&first_delta, &mut state);
    let first_item_id = first_events[0]["params"]["itemId"]
        .as_str()
        .unwrap()
        .to_string();

    let removed = v(r#"{
        "type": "message.part.removed",
        "properties": {
            "sessionID": "ses_test123",
            "messageID": "msg_1",
            "partID": "prt_reasoning_1"
        }
    }"#);
    let removed_events = translate_sse_event(&removed, &mut state);
    assert!(removed_events.is_empty());

    let reasoning_announce_2 = v(r#"{
        "type": "message.part.updated",
        "properties": {
            "part": {
                "type": "reasoning",
                "id": "prt_reasoning_2",
                "sessionID": "ses_test123",
                "text": ""
            }
        }
    }"#);
    translate_sse_event(&reasoning_announce_2, &mut state);

    let second_delta = v(r#"{
        "type": "message.part.delta",
        "properties": {
            "sessionID": "ses_test123",
            "partID": "prt_reasoning_2",
            "field": "text",
            "delta": "rethinking..."
        }
    }"#);
    let second_events = translate_sse_event(&second_delta, &mut state);
    let second_item_id = second_events[0]["params"]["itemId"].as_str().unwrap();
    assert_eq!(second_events[0]["method"], "item/reasoning/textDelta");
    assert_ne!(second_item_id, first_item_id);
}

#[test]
fn part_removed_resets_text_mapping_for_next_part() {
    let mut state = make_state();

    let text_part_1 = v(r#"{
        "type": "message.part.updated",
        "properties": {
            "part": {
                "type": "text",
                "id": "prt_text_1",
                "sessionID": "ses_test123"
            },
            "delta": "hello"
        }
    }"#);
    let first_events = translate_sse_event(&text_part_1, &mut state);
    let first_item_id = first_events[0]["params"]["itemId"]
        .as_str()
        .unwrap()
        .to_string();

    let removed = v(r#"{
        "type": "message.part.removed",
        "properties": {
            "sessionID": "ses_test123",
            "messageID": "msg_1",
            "partID": "prt_text_1"
        }
    }"#);
    let removed_events = translate_sse_event(&removed, &mut state);
    assert!(removed_events.is_empty());

    let text_part_2 = v(r#"{
        "type": "message.part.updated",
        "properties": {
            "part": {
                "type": "text",
                "id": "prt_text_2",
                "sessionID": "ses_test123"
            },
            "delta": "hi again"
        }
    }"#);
    let second_events = translate_sse_event(&text_part_2, &mut state);
    let second_item_id = second_events[0]["params"]["itemId"].as_str().unwrap();
    assert_eq!(second_events[0]["method"], "item/agentMessage/delta");
    assert_ne!(second_item_id, first_item_id);
}

#[test]
fn subtask_part_produces_reasoning_summary_events() {
    let mut state = make_state();
    let event = v(r#"{
        "type": "message.part.updated",
        "properties": {
            "part": {
                "type": "subtask",
                "id": "prt_subtask_1",
                "sessionID": "ses_test123",
                "messageID": "msg_1",
                "prompt": "Investigate SQLite fallback and verify build",
                "description": "Designing SQLite usage fallback",
                "agent": "code"
            }
        }
    }"#);

    let events = translate_sse_event(&event, &mut state);
    assert_eq!(events.len(), 2);
    assert_eq!(events[0]["method"], "item/reasoning/summaryPartAdded");
    assert_eq!(events[1]["method"], "item/reasoning/summaryTextDelta");
    assert_eq!(
        events[1]["params"]["delta"],
        "Designing SQLite usage fallback"
    );
}

#[test]
fn agent_part_produces_reasoning_summary_events() {
    let mut state = make_state();
    let event = v(r#"{
        "type": "message.part.updated",
        "properties": {
            "part": {
                "type": "agent",
                "id": "prt_agent_1",
                "sessionID": "ses_test123",
                "messageID": "msg_1",
                "name": "Verifying type inference and build errors"
            }
        }
    }"#);

    let events = translate_sse_event(&event, &mut state);
    assert_eq!(events.len(), 2);
    assert_eq!(events[0]["method"], "item/reasoning/summaryPartAdded");
    assert_eq!(events[1]["method"], "item/reasoning/summaryTextDelta");
    assert_eq!(
        events[1]["params"]["delta"],
        "Verifying type inference and build errors"
    );
}

#[test]
fn reasoning_part_updated_uses_part_text_when_delta_missing() {
    let mut state = make_state();
    let event = v(r#"{
        "type": "message.part.updated",
        "properties": {
            "part": {
                "type": "reasoning",
                "id": "prt_reasoning_full",
                "sessionID": "ses_test123",
                "text": "Thinking through edge cases"
            }
        }
    }"#);

    let events = translate_sse_event(&event, &mut state);
    assert_eq!(events.len(), 1);
    assert_eq!(events[0]["method"], "item/reasoning/textDelta");
    assert_eq!(events[0]["params"]["delta"], "Thinking through edge cases");
}

#[test]
fn nested_token_format_produces_token_usage() {
    let mut state = make_state();
    let event = v(r#"{
        "type": "message.updated",
        "properties": {
            "info": {
                "sessionID": "ses_test123",
                "tokens": {
                    "total": 6000,
                    "input": 5000,
                    "output": 1000,
                    "reasoning": 50,
                    "cache": { "read": 200, "write": 0 }
                }
            }
        }
    }"#);
    let events = translate_sse_event(&event, &mut state);
    assert_eq!(events.len(), 1);
    assert_eq!(events[0]["method"], "thread/tokenUsage/updated");
    assert_eq!(
        events[0]["params"]["tokenUsage"]["total"]["inputTokens"],
        5000
    );
    assert_eq!(
        events[0]["params"]["tokenUsage"]["total"]["outputTokens"],
        1000
    );
    assert_eq!(
        events[0]["params"]["tokenUsage"]["total"]["cachedInputTokens"],
        200
    );
    assert_eq!(
        events[0]["params"]["tokenUsage"]["total"]["reasoningOutputTokens"],
        50
    );
}

#[test]
fn part_delta_empty_delta_returns_empty() {
    let mut state = make_state();
    let event = v(r#"{
        "type": "message.part.delta",
        "properties": {
            "sessionID": "ses_test123",
            "partID": "prt_1",
            "field": "text",
            "delta": ""
        }
    }"#);
    let events = translate_sse_event(&event, &mut state);
    assert!(events.is_empty());
}

#[test]
fn read_tool_produces_explore_item() {
    let mut state = make_state();
    let event = v(r#"{
        "type": "message.part.updated",
        "properties": {
            "part": {
                "type": "tool",
                "id": "tc_read_1",
                "sessionID": "ses_test123",
                "tool": "read",
                "state": {
                    "status": "completed",
                    "title": "src/utils/foo.ts",
                    "input": { "filePath": "src/utils/foo.ts" },
                    "output": "file contents..."
                }
            }
        }
    }"#);
    let events = translate_sse_event(&event, &mut state);
    assert_eq!(events.len(), 1);
    assert_eq!(events[0]["method"], "item/completed");
    let item = &events[0]["params"]["item"];
    assert_eq!(item["type"], "explore");
    assert_eq!(item["status"], "explored");
    let entries = item["entries"].as_array().unwrap();
    assert_eq!(entries.len(), 1);
    assert_eq!(entries[0]["kind"], "read");
    assert_eq!(entries[0]["label"], "foo.ts");
    assert_eq!(entries[0]["detail"], "src/utils/foo.ts");
}

#[test]
fn grep_tool_produces_explore_item_with_search_kind() {
    let mut state = make_state();
    let event = v(r#"{
        "type": "message.part.updated",
        "properties": {
            "part": {
                "type": "tool",
                "id": "tc_grep_1",
                "sessionID": "ses_test123",
                "tool": "grep",
                "state": {
                    "status": "completed",
                    "title": "useState",
                    "input": { "pattern": "useState", "path": "src" },
                    "output": "matches..."
                }
            }
        }
    }"#);
    let events = translate_sse_event(&event, &mut state);
    assert_eq!(events.len(), 1);
    let item = &events[0]["params"]["item"];
    assert_eq!(item["type"], "explore");
    let entries = item["entries"].as_array().unwrap();
    assert_eq!(entries[0]["kind"], "search");
    assert_eq!(entries[0]["label"], "useState in src");
}

#[test]
fn task_tool_running_produces_collab_tool_call_started() {
    let mut state = make_state();
    let event = v(r#"{
        "type": "message.part.updated",
        "properties": {
            "part": {
                "type": "tool",
                "id": "tc_task_1",
                "sessionID": "ses_test123",
                "tool": "task",
                "state": {
                    "status": "running",
                    "input": {
                        "description": "Explore the codebase",
                        "prompt": "fallback prompt",
                        "subagent_type": "explore"
                    }
                }
            }
        }
    }"#);
    let events = translate_sse_event(&event, &mut state);
    assert_eq!(events.len(), 1);
    assert_eq!(events[0]["method"], "item/started");
    let item = &events[0]["params"]["item"];
    assert_eq!(item["type"], "collabToolCall");
    assert_eq!(item["tool"], "task");
    assert_eq!(item["status"], "in_progress");
    assert_eq!(item["senderThreadId"], "ses_test123");
    assert_eq!(item["prompt"], "Explore the codebase");
    assert_eq!(item["agentStatus"]["explore"]["status"], "running");
}

#[test]
fn task_tool_lifecycle_reuses_item_id_and_maps_completion_statuses() {
    let mut state = make_state();
    let running = v(r#"{
        "type": "message.part.updated",
        "properties": {
            "part": {
                "type": "tool",
                "id": "tc_task_2",
                "sessionID": "ses_test123",
                "tool": "task",
                "state": {
                    "status": "running",
                    "input": { "subagent_type": "general", "prompt": "Do work" }
                }
            }
        }
    }"#);
    let completed = v(r#"{
        "type": "message.part.updated",
        "properties": {
            "part": {
                "type": "tool",
                "id": "tc_task_2",
                "sessionID": "ses_test123",
                "tool": "task",
                "state": {
                    "status": "completed",
                    "input": { "subagent_type": "general", "prompt": "Do work" }
                }
            }
        }
    }"#);
    let running_events = translate_sse_event(&running, &mut state);
    let completed_events = translate_sse_event(&completed, &mut state);
    assert_eq!(running_events.len(), 1);
    assert_eq!(completed_events.len(), 1);
    assert_eq!(completed_events[0]["method"], "item/completed");
    assert_eq!(
        completed_events[0]["params"]["item"]["type"],
        "collabToolCall"
    );
    assert_eq!(completed_events[0]["params"]["item"]["status"], "completed");
    assert_eq!(
        running_events[0]["params"]["item"]["id"],
        completed_events[0]["params"]["item"]["id"]
    );
    assert_eq!(
        completed_events[0]["params"]["item"]["agentStatus"]["general"]["status"],
        "completed"
    );
}

#[test]
fn task_tool_error_produces_failed_collab_tool_call() {
    let mut state = make_state();
    let error_event = v(r#"{
        "type": "message.part.updated",
        "properties": {
            "part": {
                "type": "tool",
                "id": "tc_task_3",
                "sessionID": "ses_test123",
                "tool": "task",
                "state": {
                    "status": "error",
                    "input": { "description": "Try something", "subagent_type": "explore" },
                    "output": "failed"
                }
            }
        }
    }"#);
    let events = translate_sse_event(&error_event, &mut state);
    assert_eq!(events.len(), 1);
    assert_eq!(events[0]["method"], "item/completed");
    assert_eq!(events[0]["params"]["item"]["type"], "collabToolCall");
    assert_eq!(events[0]["params"]["item"]["status"], "failed");
    assert_eq!(
        events[0]["params"]["item"]["agentStatus"]["explore"]["status"],
        "failed"
    );
}

#[test]
fn glob_tool_produces_explore_item_with_list_kind() {
    let mut state = make_state();
    let event = v(r#"{
        "type": "message.part.updated",
        "properties": {
            "part": {
                "type": "tool",
                "id": "tc_glob_1",
                "sessionID": "ses_test123",
                "tool": "glob",
                "state": {
                    "status": "running",
                    "title": "src/components",
                    "input": { "path": "src/components" }
                }
            }
        }
    }"#);
    let events = translate_sse_event(&event, &mut state);
    assert_eq!(events.len(), 1);
    assert_eq!(events[0]["method"], "item/started");
    let item = &events[0]["params"]["item"];
    assert_eq!(item["type"], "explore");
    assert_eq!(item["status"], "exploring");
    let entries = item["entries"].as_array().unwrap();
    assert_eq!(entries[0]["kind"], "list");
    assert_eq!(entries[0]["label"], "src/components");
}

#[test]
fn list_tool_produces_explore_item() {
    let mut state = make_state();
    let event = v(r#"{
        "type": "message.part.updated",
        "properties": {
            "part": {
                "type": "tool",
                "id": "tc_list_1",
                "sessionID": "ses_test123",
                "tool": "list",
                "state": {
                    "status": "completed",
                    "title": ".",
                    "input": {},
                    "output": "files..."
                }
            }
        }
    }"#);
    let events = translate_sse_event(&event, &mut state);
    let item = &events[0]["params"]["item"];
    assert_eq!(item["type"], "explore");
    let entries = item["entries"].as_array().unwrap();
    assert_eq!(entries[0]["kind"], "list");
    assert_eq!(entries[0]["label"], ".");
}
