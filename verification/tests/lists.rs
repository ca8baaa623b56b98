use opencode_monitor::session_state::SessionTranslationState;
use opencode_monitor::threads::{
    approval_rule_words, build_agent_list, build_archive_body, build_collaboration_mode_list, build_compaction_body,
    build_fork_response, build_mcp_status_list, build_mode_entry, build_revert_body, build_review_body,
    build_review_response, build_server_response, build_skill_list, build_slash_command_body,
    build_slash_command_list, build_thread_list, build_thread_name_body, compaction_model, forked_review_thread,
    is_detached_review, now_unix_ms, review_target_to_opencode_arguments, review_thread, session_is_archived,
    start_session,
};
use opencode_monitor::workspaces::{
    hidden_session_ids_for_workspace, index_workspaces, remember_hidden_session_id, resolve_workspace_and_parent,
    Workspace,
};
use opencode_monitor::json::{Json, JsonNumber};
use serde_json::{Number, Value};

fn v(text: &str) -> Value {
    serde_json::from_str(text).expect("valid JSON")
}

fn to_json(value: &Value) -> Json {
    match value {
        Value::Null => Json::Null,
        Value::Bool(b) => Json::Bool(*b),
        Value::Number(n) => {
            if let Some(u) = n.as_u64() {
                Json::Number(JsonNumber::Unsigned(u))
            } else if let Some(i) = n.as_i64() {
                Json::Number(JsonNumber::Negative(i))
            } else {
                Json::Number(JsonNumber::Float(n.to_string()))
            }
        }
        Value::String(s) => Json::Text(s.clone()),
        Value::Array(items) => Json::Array(items.iter().map(to_json).collect()),
        Value::Object(map) => {
            Json::Object(map.iter().map(|(k, item)| (k.clone(), to_json(item))).collect())
        }
    }
}

fn to_value(json: &Json) -> Value {
    match json {
        Json::Null => Value::Null,
        Json::Bool(b) => Value::Bool(*b),
        Json::Number(JsonNumber::Unsigned(n)) => Value::from(*n),
        Json::Number(JsonNumber::Negative(n)) => Value::from(*n),
        Json::Number(JsonNumber::Float(s)) => Value::Number(s.parse::<Number>().expect("number")),
        Json::Text(s) => Value::String(s.clone()),
        Json::Array(items) => Value::Array(items.iter().map(to_value).collect()),
        Json::Object(entries) => {
            let mut map = serde_json::Map::new();
            for (k, item) in entries {
                map.insert(k.clone(), to_value(item));
            }
            Value::Object(map)
        }
    }
}

fn ids(list: &Json) -> Vec<String> {
    to_value(list)["result"]["data"]
        .as_array()
        .expect("a list")
        .iter()
        .map(|entry| entry["id"].as_str().expect("an identifier").to_string())
        .collect()
}

#[test]
fn hidden_and_archived_sessions_are_not_listed() {
    let sessions = to_json(&v(
        r#"[{ "id": "a" }, { "id": "b", "time": { "archived": 5 } }, { "id": "c" }, { "title": "none" }]"#,
    ));
    let hidden = vec!["c".to_string()];
    assert_eq!(ids(&build_thread_list(&sessions, &None, &hidden)), vec!["a"]);
    assert_eq!(ids(&build_thread_list(&sessions, &Some("all".to_string()), &hidden)), vec!["a", "b", "c"]);
    let list = to_value(&build_thread_list(&Json::Null, &None, &hidden));
    assert_eq!(list, v(r#"{ "result": { "data": [], "nextCursor": null } }"#));
}

#[test]
fn archiving_is_a_positive_time_or_any_number() {
    let archived = |t: &str| session_is_archived(&to_json(&v(&format!(r#"{{ "time": {{ "archived": {t} }} }}"#))));
    assert!(archived("1") && archived("0") && archived(r#"" 7 ""#));
    assert!(!archived("null") && !archived("-1") && !archived(r#""0""#) && !archived("1.5"));
}

#[test]
fn times_of_a_thread_fall_back_to_each_other() {
    let list = build_thread_list(&to_json(&v(r#"[{ "id": "a", "updated_at": 4 }]"#)), &None, &Vec::new());
    let entry = &to_value(&list)["result"]["data"][0];
    assert_eq!(entry["createdAt"], 4);
    assert_eq!(*entry, v(
        r#"{ "id": "a", "cwd": "", "name": "", "preview": "", "updatedAt": 4, "createdAt": 4 }"#
    ));
}

#[test]
fn new_sessions_become_the_active_ones() {
    let mut state = SessionTranslationState::new("old".to_string());
    let answer = to_value(&start_session(&mut state, &to_json(&v("{}"))));
    assert_eq!(answer, v(r#"{ "result": { "thread": { "id": "" } } }"#));
    assert_eq!(state.session_id, "old");
    let answer = to_value(&start_session(&mut state, &to_json(&v(r#"{ "id": "new" }"#))));
    assert_eq!(answer["result"]["thread"]["id"], "new");
    assert_eq!(state.session_id, "new");
    let forked = to_value(&build_fork_response(&to_json(&v(r#"{ "id": "f", "title": "T" }"#))));
    assert_eq!(forked["result"]["thread"]["name"], "T");
    let nameless = to_value(&build_fork_response(&Json::Null));
    assert_eq!(nameless["result"]["thread"], v(r#"{ "id": "" }"#));
}

#[test]
fn servers_of_tools_are_listed_by_name() {
    let servers = Json::Object(vec![
        ("b".to_string(), to_json(&v(r#"{ "status": "ok" }"#))),
        ("a".to_string(), Json::Text("down".to_string())),
        ("c".to_string(), Json::Null),
    ]);
    let all = to_value(&build_mcp_status_list(&servers, None));
    let data = all["result"]["data"].as_array().expect("a list");
    assert_eq!(data.len(), 3);
    assert_eq!(data[0], v(
        r#"{
            "name": "a", "status": "down", "authStatus": "down", "auth_status": "down", "tools": {},
            "resources": [], "resourceTemplates": [], "resource_templates": []
        }"#
    ));
    assert_eq!((&data[1]["name"], &data[1]["status"]), (&v(r#""b""#), &v(r#""ok""#)));
    assert_eq!(data[2]["status"], "");
    let two = to_value(&build_mcp_status_list(&servers, Some(2)));
    assert_eq!(two["result"]["data"].as_array().map(|d| d.len()), Some(2));
    let none = to_value(&build_mcp_status_list(&Json::Null, Some(2)));
    assert_eq!(none["result"]["data"], v("[]"));
}

#[test]
fn commands_and_skills_are_listed() {
    let commands = to_value(&build_slash_command_list(&to_json(&v(r#"[{ "name": "x" }]"#))));
    assert_eq!(commands, v(r#"{ "result": { "data": [{ "name": "x" }] } }"#));
    assert_eq!(to_value(&build_slash_command_list(&Json::Null))["result"]["data"], v("[]"));
    let skills = to_value(&build_skill_list(&to_json(&v(
        r#"[{ "name": " s ", "location": "/l", "path": "/p" }, { "name": " " }, { "name": "t", "path": "/p", "description": "d" }]"#,
    ))));
    assert_eq!(skills["result"]["skills"], v(
        r#"[{ "name": "s", "path": "/l", "description": "" }, { "name": "t", "path": "/p", "description": "d" }]"#
    ));
}

#[test]
fn agents_are_listed_by_what_they_can_do() {
    let agents = to_json(&v(
        r#"[
            { "name": " build ", "mode": "primary", "description": "d" },
            { "name": "explore", "mode": "subagent" },
            { "name": "\u00dfeta" },
            { "name": "quiet", "hidden": true },
            { "mode": "all" }
        ]"#,
    ));
    let modes = to_value(&build_collaboration_mode_list(Some(&agents)));
    assert_eq!(modes["result"]["data"], v(
        r#"[
            { "name": "build", "label": "Build", "mode": "build", "description": "d", "settings": {} },
            { "name": "\u00dfeta", "label": "SSeta", "mode": "\u00dfeta", "description": "", "settings": {} }
        ]"#
    ));
    let mentions = to_value(&build_agent_list(Some(&agents)));
    assert_eq!(mentions["result"]["data"], v(
        r#"[
            { "name": "explore", "mode": "subagent", "description": "" },
            { "name": "\u00dfeta", "mode": "subagent", "description": "" }
        ]"#
    ));
    assert_eq!(to_value(&build_agent_list(None)), v(r#"{ "result": { "data": [] } }"#));
    assert_eq!(to_value(&build_collaboration_mode_list(None)), v(r#"{ "result": { "data": [] } }"#));
    let entry = build_mode_entry(&to_json(&v(r#"{ "name": "abc" }"#)), "X").expect("an entry");
    assert_eq!(to_value(&entry)["label"], "Xbc");
}

#[test]
fn requests_have_their_bodies() {
    assert_eq!(to_value(&build_archive_body(9)), v(r#"{ "time": { "archived": 9 } }"#));
    assert_eq!(to_value(&build_thread_name_body(" n ")), v(r#"{ "title": "n" }"#));
    assert_eq!(to_value(&build_revert_body("m")), v(r#"{ "messageID": "m" }"#));
    assert_eq!(to_value(&build_review_body("a")), v(r#"{ "command": "review", "arguments": "a" }"#));
    assert_eq!(now_unix_ms(Some(12)), 12);
    assert_eq!(now_unix_ms(Some(u64::MAX as u128 + 3)), 2);
    assert_eq!(now_unix_ms(None), 0);
    let body = build_slash_command_body(" //init ", Some(" now ")).expect("a body");
    assert_eq!(to_value(&body), v(r#"{ "command": "init", "arguments": "now" }"#));
    assert_eq!(build_slash_command_body(" / ", None).expect_err("empty"), "empty slash command");
}

#[test]
fn compaction_needs_a_model() {
    assert_eq!(compaction_model(Some(" m ".to_string())).expect("a model"), "m");
    assert!(compaction_model(None).expect_err("none").starts_with("No model selected for context compaction."));
    let body = |model: Option<&str>| build_compaction_body("m", model.map(|m| to_json(&v(m))).as_ref());
    let full = body(Some(r#"{ "providerID": "p", "modelID": "m", "x": 1 }"#)).expect("a body");
    assert_eq!(to_value(&full), v(r#"{ "providerID": "p", "modelID": "m" }"#));
    assert_eq!(body(None).expect_err("unknown"), "Failed to resolve model `m` for context compaction.");
    assert_eq!(body(Some("{}")).expect_err("no provider"), "Compaction model resolution missing providerID.");
    assert_eq!(
        body(Some(r#"{ "providerID": "p" }"#)).expect_err("no model"),
        "Compaction model resolution missing modelID."
    );
}

#[test]
fn reviews_need_a_known_target() {
    let arguments = |t: &str| review_target_to_opencode_arguments(&to_json(&v(t)));
    assert_eq!(arguments("{}").expect("all changes"), "");
    assert_eq!(arguments(r#"{ "type": "baseBranch" }"#).expect_err("branch"), "review target missing branch");
    assert_eq!(arguments(r#"{ "type": "commit", "sha": " " }"#).expect_err("sha"), "review target missing sha");
    assert_eq!(
        arguments(r#"{ "type": "custom" }"#).expect_err("instructions"),
        "review target missing instructions"
    );
    assert_eq!(arguments(r#"{ "type": " x " }"#).expect_err("kind"), "unsupported review target type: x");
    assert!(is_detached_review(Some(" Detached ")));
    assert!(!is_detached_review(Some("inline")) && !is_detached_review(None));
    assert_eq!(forked_review_thread(&to_json(&v(r#"{ "id": "f" }"#))).expect("a thread"), "f");
    assert_eq!(forked_review_thread(&Json::Null).expect_err("none"), "failed to fork review thread");
}

#[test]
fn reviews_run_in_the_thread_that_was_made_for_them() {
    let forked = to_json(&v(r#"{ "id": "f" }"#));
    assert_eq!(review_thread("t", Some(&forked)).expect("a thread"), "f");
    assert_eq!(review_thread("t", None).expect("a thread"), "t");
    let nameless = to_json(&v(r#"{ "id": "" }"#));
    assert_eq!(review_thread("t", Some(&nameless)).expect_err("none"), "failed to fork review thread");
    assert_eq!(to_value(&build_review_response("f")), v(r#"{ "result": { "reviewThreadId": "f" } }"#));
}

#[test]
fn allowed_commands_have_words() {
    let words = vec![" git ".to_string(), " ".to_string(), "push".to_string()];
    assert_eq!(approval_rule_words(&words).expect("words"), vec!["git", "push"]);
    assert_eq!(approval_rule_words(&vec![" ".to_string()]).expect_err("empty"), "empty command");
}

#[test]
fn answers_find_the_request_that_they_answer() {
    let answer = |id: &str, result: &str| {
        let (path, body) = build_server_response(&Json::Text(id.to_string()), &to_json(&v(result)));
        (path, to_value(&body))
    };
    assert_eq!(
        answer("ses:q:1", r#"{ "answers": { "10": { "answers": ["c"] }, "2": { "answers": ["a", "b"] }, "x": { "answers": [] }, "3": {} } }"#),
        ("/question/q:1/reply".to_string(), v(r#"{ "answers": [["a", "b"], ["c"]] }"#))
    );
    assert_eq!(answer("ses:q1", r#"{ "reject": true }"#), ("/question/q1/reject".to_string(), v("{}")));
    assert_eq!(
        answer("ses:p1", r#"{ "decision": "always" }"#),
        ("/permission/p1/reply".to_string(), v(r#"{ "reply": "always" }"#))
    );
    assert_eq!(answer("p1", "{}"), ("/permission//reply".to_string(), v(r#"{ "reply": "once" }"#)));
    assert_eq!(answer("s:q", r#"{ "answers": 1 }"#).1, v(r#"{ "answers": [] }"#));
}

#[test]
fn workspaces_are_found_with_their_parents() {
    let workspace = |id: &str, parent: Option<&str>| Workspace {
        id: id.to_string(),
        parent_id: parent.map(str::to_string),
        hidden_session_ids: Vec::new(),
    };
    let mut all = index_workspaces(vec![
        workspace("a", None),
        workspace("b", Some("a")),
        workspace("c", Some("gone")),
        workspace("a", Some("b")),
    ]);
    let (found, parent) = resolve_workspace_and_parent(&all, "b").expect("a workspace");
    assert_eq!((found.id.as_str(), parent.map(|p| p.id.as_str())), ("b", Some("a")));
    let (later, _) = resolve_workspace_and_parent(&all, "a").expect("a workspace");
    assert_eq!(later.parent_id.as_deref(), Some("b"));
    assert!(resolve_workspace_and_parent(&all, "c").expect("a workspace").1.is_none());
    assert_eq!(resolve_workspace_and_parent(&all, "d").err().as_deref(), Some("workspace not found"));
    assert_eq!(remember_hidden_session_id(&mut all, "d", "s").err().as_deref(), Some("workspace not found"));
    assert_eq!(remember_hidden_session_id(&mut all, "b", "s"), Ok(()));
    assert_eq!(remember_hidden_session_id(&mut all, "b", "s"), Ok(()));
    assert_eq!(all.get("b").expect("a workspace").hidden_session_ids, vec!["s"]);
}

#[test]
fn answers_stand_at_the_places_of_their_questions() {
    let (_, body) = build_server_response(
        &Json::Text("s:q".to_string()),
        &Json::Object(vec![(
            "answers".to_string(),
            to_json(&v(r#"{ "2": { "answers": ["c"] }, "0": { "answers": ["a"] }, "1": { "answers": ["b"] } }"#)),
        )]),
    );
    assert_eq!(to_value(&body), v(r#"{ "answers": [["a"], ["b"], ["c"]] }"#));
}

#[test]
fn a_helper_session_is_not_listed() {
    let mut all = index_workspaces(vec![Workspace {
        id: "w".to_string(),
        parent_id: None,
        hidden_session_ids: vec![" old ".to_string()],
    }]);
    remember_hidden_session_id(&mut all, "w", "helper").expect("a workspace");
    let hidden = hidden_session_ids_for_workspace(&all, "w");
    let sessions = to_json(&v(r#"[{ "id": "helper" }, { "id": "old" }, { "id": "shown" }]"#));
    let listed = |sort_key: Option<&str>| {
        let list = to_value(&build_thread_list(&sessions, &sort_key.map(str::to_string), &hidden));
        list["result"]["data"].as_array().expect("a list").iter().map(|entry| entry["id"].clone()).collect::<Vec<_>>()
    };
    assert_eq!(listed(None), ["shown"]);
    assert_eq!(listed(Some(" ALL ")), ["helper", "old", "shown"]);
}
