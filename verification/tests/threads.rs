use opencode_monitor::images::{
    data_image_file, frontend_image_value, ip_is_disallowed, read_image_url, validate_public_image_url,
    HostAddress, HostVerdict,
};
use opencode_monitor::models;
use opencode_monitor::prompt_parts;
use opencode_monitor::prompt_parts::{plan_prompt_parts, PartStep};
use opencode_monitor::replay;
use opencode_monitor::replay::replay_tool_kind_to_item_type;
use opencode_monitor::str_map::StrMap;
use opencode_monitor::threads;
use opencode_monitor::threads::should_include_hidden_sessions;
use opencode_monitor::tool_items::FileDiffs;
use opencode_monitor::workspaces::{hidden_session_ids_for_workspace, index_workspaces, Workspace};

use opencode_monitor::json::{Json, JsonNumber};
use serde_json::{Number, Value};

fn v(text: &str) -> Value {
    serde_json::from_str(text).expect("valid JSON")
}

fn to_json(value: &Value) -> Json {
    match value {
        Value::Null => Json::Null,
        Value::Bool(b) => Json::Bool(*b),
        Value::Number(n) => {
            if let Some(u) = n.as_u64() {
                Json::Number(JsonNumber::Unsigned(u))
            } else if let Some(i) = n.as_i64() {
                Json::Number(JsonNumber::Negative(i))
            } else {
                Json::Number(JsonNumber::Float(n.to_string()))
            }
        }
        Value::String(s) => Json::Text(s.clone()),
        Value::Array(items) => Json::Array(items.iter().map(to_json).collect()),
        Value::Object(map) => {
            Json::Object(map.iter().map(|(k, item)| (k.clone(), to_json(item))).collect())
        }
    }
}

fn to_value(json: &Json) -> Value {
    match json {
        Json::Null => Value::Null,
        Json::Bool(b) => Value::Bool(*b),
        Json::Number(JsonNumber::Unsigned(n)) => Value::from(*n),
        Json::Number(JsonNumber::Negative(n)) => Value::from(*n),
        Json::Number(JsonNumber::Float(s)) => Value::Number(s.parse::<Number>().expect("number")),
        Json::Text(s) => Value::String(s.clone()),
        Json::Array(items) => Value::Array(items.iter().map(to_value).collect()),
        Json::Object(entries) => {
            let mut map = serde_json::Map::new();
            for (k, item) in entries {
                map.insert(k.clone(), to_value(item));
            }
            Value::Object(map)
        }
    }
}

fn sort_replay_messages_chronologically(messages: &mut Vec<Value>) {
    let mut list: Vec<Json> = messages.iter().map(to_json).collect();
    replay::sort_replay_messages_chronologically(&mut list);
    *messages = list.iter().map(to_value).collect();
}

fn last_revertable_message_id(messages: &[Value]) -> Option<String> {
    let list: Vec<Json> = messages.iter().map(to_json).collect();
    replay::last_revertable_message_id(&list)
}

fn apply_pending_revert_to_replay_messages(messages: &mut Vec<Value>, details: Option<&Value>) {
    let mut list: Vec<Json> = messages.iter().map(to_json).collect();
    let details = details.map(to_json);
    replay::apply_pending_revert_to_replay_messages(&mut list, details.as_ref());
    *messages = list.iter().map(to_value).collect();
}

fn review_target_to_opencode_arguments(target: &Value) -> Result<String, String> {
    threads::review_target_to_opencode_arguments(&to_json(target))
}

fn session_to_thread_entry(session: &Value) -> Option<Value> {
    threads::session_to_thread_entry(&to_json(session)).as_ref().map(to_value)
}

fn collaboration_agent_name_from_payload(mode: Option<&Value>) -> Option<String> {
    prompt_parts::collaboration_agent_name_from_payload(mode.map(to_json).as_ref())
}

fn collaboration_mode_entry_from_agent(agent: &Value) -> Option<Value> {
    threads::collaboration_mode_entry_from_agent(&to_json(agent)).as_ref().map(to_value)
}

fn replay_build_tool_item(
    item_id: &str,
    thread_id: &str,
    item_type: &str,
    tool_name: &str,
    status: &str,
    raw_input: Option<&Value>,
    output: &str,
) -> Value {
    let input = raw_input.map(to_json);
    let diffs = FileDiffs { patch_changes: None, edit_diff: None };
    to_value(&replay::replay_build_tool_item(
        item_id,
        thread_id,
        item_type,
        tool_name,
        status,
        input.as_ref(),
        output,
        &diffs,
    ))
}

fn resume_thread_result_thread(thread_id: &str, details: Option<&Value>) -> Value {
    to_value(&threads::resume_thread_result_thread(thread_id, details.map(to_json).as_ref()))
}

fn model_list_response_from_providers(providers: &Value) -> Value {
    to_value(&models::model_list_response_from_providers(&to_json(providers)))
}

#[test]
fn include_hidden_sessions_enabled_only_for_all_sort_key() {
    assert!(should_include_hidden_sessions(&Some("all".to_string())));
    assert!(should_include_hidden_sessions(&Some(" ALL ".to_string())));
    assert!(!should_include_hidden_sessions(&Some(
        "updated_at".to_string()
    )));
    assert!(!should_include_hidden_sessions(&None));
}

#[test]
fn sort_replay_messages_orders_oldest_first_by_timestamp() {
    let mut messages = vec![
        v(r#"{
            "id": "msg-newer",
            "time": { "created": 200 }
        }"#),
        v(r#"{
            "id": "msg-older",
            "time": { "created": 100 }
        }"#),
        v(r#"{
            "id": "msg-middle",
            "createdAt": 150
        }"#),
    ];

    sort_replay_messages_chronologically(&mut messages);

    let ids: Vec<String> = messages
        .iter()
        .filter_map(|msg| {
            msg.get("id")
                .and_then(|v| v.as_str())
                .map(ToOwned::to_owned)
        })
        .collect();
    assert_eq!(ids, vec!["msg-older", "msg-middle", "msg-newer"]);
}

#[test]
fn last_revertable_message_id_selects_latest_message_after_sorting() {
    let messages = vec![
        v(r#"{ "info": { "id": "msg_new", "time": { "created": 30 } } }"#),
        v(r#"{ "info": { "id": "msg_old", "time": { "created": 10 } } }"#),
        v(r#"{ "info": { "id": "msg_mid", "createdAt": 20 } }"#),
    ];

    let id = last_revertable_message_id(&messages);
    assert_eq!(id.as_deref(), Some("msg_new"));
}

#[test]
fn last_revertable_message_id_skips_entries_without_message_info_id() {
    let messages = vec![
        v(r#"{ "info": { "time": { "created": 10 } } }"#),
        v(r#"{ "parts": [] }"#),
    ];

    assert_eq!(last_revertable_message_id(&messages), None);
}

#[test]
fn replay_filters_messages_after_pending_revert_message() {
    let mut messages = vec![
        v(r#"{ "info": { "id": "m1", "time": { "created": 10 } }, "parts": [] }"#),
        v(r#"{ "info": { "id": "m2", "time": { "created": 20 } }, "parts": [] }"#),
        v(r#"{ "info": { "id": "m3", "time": { "created": 30 } }, "parts": [] }"#),
    ];

    apply_pending_revert_to_replay_messages(
        &mut messages,
        Some(&v(r#"{ "revert": { "messageID": "m2" } }"#)),
    );

    let ids: Vec<&str> = messages
        .iter()
        .filter_map(|entry| entry.get("info")?.get("id")?.as_str())
        .collect();
    assert_eq!(ids, vec!["m1"]);
}

#[test]
fn replay_truncates_parts_for_pending_part_revert() {
    let mut messages = vec![v(r#"{
        "info": { "id": "m1", "time": { "created": 10 } },
        "parts": [
            { "id": "p1", "type": "text", "text": "a" },
            { "id": "p2", "type": "text", "text": "b" },
            { "id": "p3", "type": "text", "text": "c" }
        ]
    }"#)];

    apply_pending_revert_to_replay_messages(
        &mut messages,
        Some(&v(r#"{ "revert": { "messageID": "m1", "partID": "p2" } }"#)),
    );

    let part_ids: Vec<&str> = messages[0]
        .get("parts")
        .and_then(|v| v.as_array())
        .expect("parts array")
        .iter()
        .filter_map(|part| part.get("id").and_then(|v| v.as_str()))
        .collect();
    assert_eq!(part_ids, vec!["p1"]);
}

#[test]
fn private_and_loopback_ips_are_disallowed() {
    assert!(ip_is_disallowed(&HostAddress::V4([127, 0, 0, 1])));
    assert!(ip_is_disallowed(&HostAddress::V4([10, 0, 0, 1])));
    assert!(!ip_is_disallowed(&HostAddress::V4([8, 8, 8, 8])));
}

#[test]
fn build_rest_prompt_parts_blocks_localhost_image_urls() {
    let plan = plan_prompt_parts(
        "hello",
        &Some(vec!["http://localhost/image.png".to_string()]),
        &None,
        &None,
    );
    assert!(plan.error.is_none());
    assert_eq!(plan.steps.len(), 2);
    let address = match &plan.steps[1] {
        PartStep::Fetch(address) => address,
        _ => panic!("an image on the web is fetched"),
    };
    let url = read_image_url(address).expect("an address");
    match validate_public_image_url(&url, None) {
        HostVerdict::Refused(error) => assert!(error.contains("Blocked image URL host")),
        _ => panic!("localhost URL should be blocked"),
    }
}

#[test]
fn frontend_image_value_materializes_data_urls_to_temp_files() {
    let data_url = "data:image/png;base64,iVBORw0KGgoAAAANSUhEUgAAAAEAAAABCAQAAAC1HAwCAAAAC0lEQVR42mP8/x8AAwMCAO+jXioAAAAASUVORK5CYII=";

    let store = || {
        let file = data_image_file(data_url).expect("an image");
        assert_eq!(&file.bytes[..8], &[0x89, b'P', b'N', b'G', 0x0d, 0x0a, 0x1a, 0x0a]);
        let mut stored: StrMap<String> = StrMap::new();
        stored.insert(data_url, format!("/cache/{}", file.name));
        stored
    };
    let path = frontend_image_value(data_url, &store());
    let repeated = frontend_image_value(data_url, &store());

    assert!(!path.starts_with("data:"));
    assert_eq!(path, repeated);
    assert!(path.ends_with(".png"));
}

#[test]
fn hidden_session_ids_are_read_from_workspace_settings() {
    let workspaces = index_workspaces(vec![Workspace {
        id: "ws-1".to_string(),
        parent_id: None,
        hidden_session_ids: vec!["ses_bg_1".to_string(), "ses_bg_2".to_string()],
    }]);

    let hidden = hidden_session_ids_for_workspace(&workspaces, "ws-1");
    assert!(hidden.contains(&"ses_bg_1".to_string()));
    assert!(hidden.contains(&"ses_bg_2".to_string()));
    assert!(!hidden.contains(&"ses_fg".to_string()));
}

#[test]
fn review_target_to_opencode_arguments_maps_known_targets() {
    assert_eq!(
        review_target_to_opencode_arguments(&v(r#"{ "type": "uncommittedChanges" }"#))
            .expect("uncommitted"),
        ""
    );
    assert_eq!(
        review_target_to_opencode_arguments(&v(r#"{
            "type": "baseBranch",
            "branch": "main"
        }"#))
        .expect("base branch"),
        "main"
    );
    assert_eq!(
        review_target_to_opencode_arguments(&v(r#"{
            "type": "commit",
            "sha": "abc123"
        }"#))
        .expect("commit"),
        "abc123"
    );
    assert_eq!(
        review_target_to_opencode_arguments(&v(r#"{
            "type": "custom",
            "instructions": "focus on tests"
        }"#))
        .expect("custom"),
        "focus on tests"
    );
}

#[test]
fn session_to_thread_entry_includes_parent_and_timestamps() {
    let entry = session_to_thread_entry(&v(r#"{
        "id": "ses_1",
        "title": "Example",
        "directory": "/tmp/work",
        "parentID": "ses_parent",
        "time": { "created": 10, "updated": 20 }
    }"#))
    .expect("thread entry");

    assert_eq!(entry.get("id").and_then(|v| v.as_str()), Some("ses_1"));
    assert_eq!(entry.get("name").and_then(|v| v.as_str()), Some("Example"));
    assert_eq!(
        entry.get("parentId").and_then(|v| v.as_str()),
        Some("ses_parent")
    );
    assert_eq!(entry.get("createdAt").and_then(|v| v.as_u64()), Some(10));
    assert_eq!(entry.get("updatedAt").and_then(|v| v.as_u64()), Some(20));
}

#[test]
fn collaboration_agent_name_from_payload_reads_mode_string() {
    let agent = collaboration_agent_name_from_payload(Some(&v(r#"{
        "mode": "explore",
        "settings": {}
    }"#)));
    assert_eq!(agent.as_deref(), Some("explore"));
}

#[test]
fn collaboration_agent_name_from_payload_ignores_missing_or_empty_mode() {
    assert_eq!(
        collaboration_agent_name_from_payload(Some(&v(r#"{ "settings": {} }"#))),
        None
    );
    assert_eq!(
        collaboration_agent_name_from_payload(Some(&v(r#"{ "mode": "   " }"#))),
        None
    );
}

#[test]
fn collaboration_mode_entry_from_agent_keeps_primary_capable_and_skips_subagent_hidden() {
    let subagent = collaboration_mode_entry_from_agent(&v(r#"{
        "name": "explore",
        "mode": "subagent",
        "hidden": false,
        "description": "Explore-only agent"
    }"#));
    assert!(subagent.is_none());

    let primary = collaboration_mode_entry_from_agent(&v(r#"{
        "name": "build",
        "mode": "primary",
        "hidden": false,
        "description": "Primary agent"
    }"#))
    .expect("primary agent should be included");
    assert_eq!(primary["mode"], "build");
    assert_eq!(primary["label"], "Build");

    let dual_role = collaboration_mode_entry_from_agent(&v(r#"{
        "name": "general",
        "mode": "all",
        "hidden": false
    }"#))
    .expect("all-mode agent should be included");
    assert_eq!(dual_role["mode"], "general");

    let hidden = collaboration_mode_entry_from_agent(&v(r#"{
        "name": "summary",
        "mode": "primary",
        "hidden": true
    }"#));
    assert!(hidden.is_none());
}

#[test]
fn replay_task_tool_maps_to_collab_tool_call_item() {
    assert_eq!(replay_tool_kind_to_item_type("task"), "collabToolCall");
    let item = replay_build_tool_item(
        "replay_item_1",
        "ses_parent",
        "collabToolCall",
        "task",
        "completed",
        Some(&v(r#"{
            "description": "Explore the codebase",
            "prompt": "fallback prompt",
            "subagent_type": "explore"
        }"#)),
        "",
    );
    assert_eq!(item["type"], "collabToolCall");
    assert_eq!(item["senderThreadId"], "ses_parent");
    assert_eq!(item["prompt"], "Explore the codebase");
    assert_eq!(item["agentStatus"]["explore"]["status"], "completed");
}

#[test]
fn resume_thread_result_thread_includes_parent_from_session_details() {
    let thread = resume_thread_result_thread(
        "ses_child",
        Some(&v(r#"{
            "id": "ses_child",
            "title": "Child",
            "directory": "/tmp/ws",
            "parentID": "ses_parent",
            "time": { "created": 1, "updated": 2 }
        }"#)),
    );
    assert_eq!(thread["id"], "ses_child");
    assert_eq!(thread["parentId"], "ses_parent");
    assert_eq!(thread["preview"], "Child");
}

#[test]
fn model_list_response_preserves_provider_model_map_keys() {
    let providers = v(r#"{
        "providers": [
            {
                "id": "cliproxy",
                "models": {
                    "model-opus-4-5": {
                        "id": "model-opus-4-5-20250929",
                        "name": "Model Opus 4.5 (CLIProxy)",
                        "variants": {}
                    },
                    "model-opus-4-6": {
                        "id": "model-opus-4-6-20251001",
                        "name": "Model Opus 4.6 (CLIProxy)",
                        "variants": {}
                    }
                }
            }
        ],
        "default": {
            "cliproxy": "model-opus-4-6-20251001"
        }
    }"#);

    let response = model_list_response_from_providers(&providers);
    let data = response
        .get("result")
        .and_then(|v| v.get("data"))
        .and_then(|v| v.as_array())
        .expect("data array");

    let rows: Vec<(String, String, bool)> = data
        .iter()
        .map(|item| {
            (
                item.get("id")
                    .and_then(|v| v.as_str())
                    .unwrap_or_default()
                    .to_string(),
                item.get("model")
                    .and_then(|v| v.as_str())
                    .unwrap_or_default()
                    .to_string(),
                item.get("isDefault")
                    .and_then(|v| v.as_bool())
                    .unwrap_or(false),
            )
        })
        .collect();

    assert!(rows.contains(&(
        "cliproxy/model-opus-4-5".to_string(),
        "model-opus-4-5".to_string(),
        false
    )));
    assert!(rows.contains(&(
        "cliproxy/model-opus-4-6".to_string(),
        "model-opus-4-6".to_string(),
        true
    )));
}
