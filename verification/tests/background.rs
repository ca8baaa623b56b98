use opencode_monitor::background;
use opencode_monitor::background::{
    build_background_body, build_commit_message_prompt, build_commit_message_prompt_for_diff,
    build_run_metadata_prompt, choose_helper_session_id, clean_worktree_name,
    extract_background_prompt_result_from_messages, extract_json_value, find_braced, message_path,
    poll_background_prompt, prompt_async_path, read_helper_session_id, run_metadata_prompt,
    sanitize_run_worktree_name, PollStep,
};
use opencode_monitor::doctor::{build_doctor_report, choose_setting, report_node, NodeCheck, NodeReport};
use opencode_monitor::json::{Json, JsonNumber};
use serde_json::{Number, Value};

fn v(text: &str) -> Value {
    serde_json::from_str(text).expect("valid JSON")
}

fn to_json(value: &Value) -> Json {
    match value {
        Value::Null => Json::Null,
        Value::Bool(b) => Json::Bool(*b),
        Value::Number(n) => {
            if let Some(u) = n.as_u64() {
                Json::Number(JsonNumber::Unsigned(u))
            } else if let Some(i) = n.as_i64() {
                Json::Number(JsonNumber::Negative(i))
            } else {
                Json::Number(JsonNumber::Float(n.to_string()))
            }
        }
        Value::String(s) => Json::Text(s.clone()),
        Value::Array(items) => Json::Array(items.iter().map(to_json).collect()),
        Value::Object(map) => {
            Json::Object(map.iter().map(|(k, item)| (k.clone(), to_json(item))).collect())
        }
    }
}

fn to_value(json: &Json) -> Value {
    match json {
        Json::Null => Value::Null,
        Json::Bool(b) => Value::Bool(*b),
        Json::Number(JsonNumber::Unsigned(n)) => Value::from(*n),
        Json::Number(JsonNumber::Negative(n)) => Value::from(*n),
        Json::Number(JsonNumber::Float(s)) => Value::Number(s.parse::<Number>().expect("number")),
        Json::Text(s) => Value::String(s.clone()),
        Json::Array(items) => Value::Array(items.iter().map(to_value).collect()),
        Json::Object(entries) => {
            let mut map = serde_json::Map::new();
            for (k, item) in entries {
                map.insert(k.clone(), to_value(item));
            }
            Value::Object(map)
        }
    }
}

fn parse_run_metadata_value(raw: &str) -> Result<Value, String> {
    background::parse_run_metadata_value(raw).map(|json| to_value(&json))
}

fn extract_text_from_message_response(response: &Value) -> Result<String, String> {
    background::extract_text_from_message_response(&to_json(response))
}

#[test]
fn build_commit_message_prompt_for_diff_requires_changes() {
    let result = build_commit_message_prompt_for_diff("   ", "{diff}");
    assert_eq!(
        result.expect_err("should fail"),
        "No changes to generate commit message for"
    );
}

#[test]
fn parse_run_metadata_value_normalizes_worktree_name_alias() {
    let raw =
        r#"{"title":"Fix Login Redirect Loop","worktree_name":"fix-login-redirect-loop"}"#;
    let parsed = parse_run_metadata_value(raw).expect("parse metadata");
    assert_eq!(parsed["title"], "Fix Login Redirect Loop");
    assert_eq!(parsed["worktreeName"], "fix/login-redirect-loop");
}

#[test]
fn parse_run_metadata_value_requires_title() {
    let raw = r#"{"worktreeName":"feat/example"}"#;
    let result = parse_run_metadata_value(raw);
    assert_eq!(
        result.expect_err("should fail"),
        "Missing title in metadata"
    );
}

#[test]
fn extract_text_from_message_response_concatenates_text_parts() {
    let response = v(r#"{
        "info": { "id": "msg_1" },
        "parts": [
            { "type": "reasoning", "text": "thinking" },
            { "type": "text", "text": "fix: " },
            { "type": "text", "text": "update parser" }
        ]
    }"#);
    let parsed = extract_text_from_message_response(&response).expect("helper text");
    assert_eq!(parsed, "fix: update parser");
}

#[test]
fn commit_prompt_fills_every_placeholder() {
    assert_eq!(build_commit_message_prompt("D", "a {diff} b {diff}"), "a D b D");
    assert_eq!(build_commit_message_prompt("D", "Write it."), "Write it.\n\nChanges:\nD");
    let default = build_commit_message_prompt("D", "  ");
    assert!(default.starts_with("Generate a concise git commit message"));
    assert!(default.ends_with("nothing else.\n\nChanges:\nD"));
    assert_eq!(build_commit_message_prompt_for_diff("D", "x {diff}").expect("a prompt"), "x D");
}

#[test]
fn metadata_prompt_holds_the_task() {
    let prompt = build_run_metadata_prompt("add a button");
    assert!(prompt.starts_with("You create concise run metadata for a coding task.\n"));
    assert!(prompt.contains("{\"title\":\"Add Coverage Tests\",\"worktreeName\":\"test/add-coverage-tests\"}"));
    assert!(prompt.ends_with("\n\nTask:\nadd a button"));
    assert_eq!(run_metadata_prompt("  add a button ").expect("a prompt"), prompt);
    assert_eq!(run_metadata_prompt(" \n").expect_err("no task"), "Prompt is required.");
}

#[test]
fn metadata_errors_are_told_apart() {
    assert_eq!(parse_run_metadata_value("  ").expect_err("empty"), "No metadata was generated");
    assert_eq!(parse_run_metadata_value("no braces").expect_err("no object"), "Failed to parse metadata JSON");
    assert_eq!(parse_run_metadata_value("{ not json }").expect_err("no JSON"), "Failed to parse metadata JSON");
    assert_eq!(
        parse_run_metadata_value(r#"{"title":"T"}"#).expect_err("no name"),
        "Missing worktree name in metadata"
    );
}

#[test]
fn json_is_found_between_the_outer_braces() {
    assert_eq!(find_braced("say {\"a\": {\"b\": 1}} done").as_deref(), Some("{\"a\": {\"b\": 1}}"));
    assert_eq!(find_braced("} {"), None);
    assert_eq!(find_braced("{"), None);
    let value = extract_json_value("```json\n{\"a\": 1.5, \"b\": -2}\n```").expect("an object");
    assert_eq!(to_value(&value), v(r#"{ "a": 1.5, "b": -2 }"#));
    assert!(extract_json_value("{ \"a\": }").is_none());
}

#[test]
fn worktree_names_get_a_kind_of_work() {
    assert_eq!(clean_worktree_name("fix/login"), "fix/login");
    assert_eq!(clean_worktree_name("refactor-big  thing_-x--"), "refactor/big-thing-x");
    assert_eq!(clean_worktree_name("/my/tool/"), "feat/my/tool");
    assert_eq!(clean_worktree_name("feature-x"), "feat/feature-x");
    assert_eq!(clean_worktree_name(""), "feat/");
    assert_eq!(clean_worktree_name("ci-\u{e9}t\u{e9} 2"), "ci/t-2");
    for name in ["docs", "style-a", "x y", "\u{4e2d}"] {
        let cleaned = clean_worktree_name(name);
        assert!(cleaned.chars().all(|c| c.is_ascii_alphanumeric() || c == '/' || c == '-'));
        assert!(cleaned.contains('/'));
    }
}

#[test]
fn worktree_names_are_put_in_small_letters() {
    assert_eq!(sanitize_run_worktree_name("  FIX/Login PAGE "), "fix/login-page");
    assert_eq!(sanitize_run_worktree_name("\u{212a}ey"), "feat/key");
}

#[test]
fn a_clean_worktree_name_stays_as_it_is() {
    for name in ["  FIX/Login PAGE ", "feature/Add__x--y/", "\u{130}stanbul", "a-", "--b//c--", "chore"] {
        let once = sanitize_run_worktree_name(name);
        assert!(once.chars().all(|c| c.is_ascii_lowercase() || c.is_ascii_digit() || c == '/' || c == '-'));
        assert!(!once.contains("--") && !once.ends_with('-') && !once.ends_with('/'));
        assert_eq!(sanitize_run_worktree_name(&once), once);
    }
    assert_eq!(sanitize_run_worktree_name(" ! "), "feat/");
    assert_eq!(sanitize_run_worktree_name("feat/"), "feat/feat");
}

#[test]
fn helper_session_needs_an_identifier() {
    let found = to_json(&v(r#"{ "id": "ses_1" }"#));
    assert_eq!(read_helper_session_id(&found).expect("an identifier"), "ses_1");
    let missing = to_json(&v(r#"{ "b": null, "a": [true] }"#));
    let notation = format!("{:?}", v(r#"{ "b": null, "a": [true] }"#));
    assert_eq!(
        read_helper_session_id(&missing).expect_err("no identifier"),
        format!("Failed to get session id from POST /session response: {notation}")
    );
    assert_eq!(
        choose_helper_session_id(&missing, "N".to_string()).expect_err("no identifier"),
        "Failed to get session id from POST /session response: N"
    );
}

#[test]
fn background_requests_have_their_paths_and_bodies() {
    assert_eq!(message_path("s1"), "/session/s1/message");
    assert_eq!(prompt_async_path("s1"), "/session/s1/prompt_async");
    let plain = to_value(&build_background_body("hi", None));
    assert_eq!(plain, v(r#"{ "parts": [{ "type": "text", "text": "hi" }] }"#));
    let model = to_json(&v(r#"{ "providerID": "p", "modelID": "m" }"#));
    let body = to_value(&build_background_body("hi", Some(model)));
    assert_eq!(body["model"]["modelID"], "m");
}

#[test]
fn hidden_sessions_are_remembered_once() {
    let mut ids = vec!["a".to_string()];
    background::remember_hidden(&mut ids, "b");
    background::remember_hidden(&mut ids, "b");
    background::remember_hidden(&mut ids, "a");
    assert_eq!(ids, vec!["a", "b"]);
}

fn result_of(text: &str) -> Option<Result<String, String>> {
    extract_background_prompt_result_from_messages(&to_json(&v(text)))
}

#[test]
fn the_last_message_of_the_assistant_counts() {
    assert_eq!(result_of("{}"), None);
    assert_eq!(result_of("[]"), None);
    assert_eq!(result_of(r#"[{ "parts": [] }]"#), None);
    assert_eq!(result_of(r#"[{ "info": { "role": "assistant", "time": {} }, "parts": [] }]"#), None);
    assert_eq!(
        result_of(
            r#"[
                { "info": { "role": "assistant", "time": { "completed": 1 } }, "parts": [{ "type": "text", "text": " ok " }] },
                { "info": { "role": "user" } }
            ]"#
        ),
        Some(Ok("ok".to_string()))
    );
    assert_eq!(
        result_of(r#"[{ "info": { "role": "assistant", "time": { "completed": 1 } }, "parts": [] }]"#),
        Some(Err("No response was generated".to_string()))
    );
    assert_eq!(
        result_of(r#"[{ "info": { "role": "assistant", "error": { "data": { "message": "quota" }, "name": "E" } } }]"#),
        Some(Err("quota".to_string()))
    );
    assert_eq!(
        result_of(r#"[{ "info": { "role": "assistant", "error": {} } }]"#),
        Some(Err("Unknown error during helper prompt".to_string()))
    );
    assert_eq!(
        extract_text_from_message_response(&v("{}")).expect_err("no parts"),
        "Failed to parse helper response parts"
    );
}

#[test]
fn polling_ends_after_four_idle_looks() {
    let idle = to_json(&v("{}"));
    let busy = to_json(&v(r#"{ "s": { "type": "busy" } }"#));
    let nothing = to_json(&v("[]"));
    let mut seen = 0;
    for expected in 1..4 {
        match poll_background_prompt(seen, &idle, "s", &nothing) {
            PollStep::Again(n) => seen = n,
            PollStep::Over(_) => panic!("too early"),
        }
        assert_eq!(seen, expected);
    }
    match poll_background_prompt(seen, &busy, "s", &nothing) {
        PollStep::Again(n) => assert_eq!(n, 0),
        PollStep::Over(_) => panic!("the session is at work"),
    }
    match poll_background_prompt(seen, &idle, "s", &nothing) {
        PollStep::Over(Err(error)) => assert_eq!(error, "No response was generated"),
        _ => panic!("four idle looks end it"),
    }
    let done = to_json(&v(
        r#"[{ "info": { "role": "assistant", "time": { "completed": 1 } }, "parts": [{ "type": "text", "text": "x" }] }]"#,
    ));
    match poll_background_prompt(seen, &idle, "s", &done) {
        PollStep::Over(Ok(text)) => assert_eq!(text, "x"),
        _ => panic!("there is an answer"),
    }
}

#[test]
fn given_settings_go_first() {
    let some = |s: &str| Some(s.to_string());
    assert_eq!(choose_setting(some("a"), some("b")), some("a"));
    assert_eq!(choose_setting(some("  "), some("b")), some("b"));
    assert_eq!(choose_setting(None, some("b")), some("b"));
    assert_eq!(choose_setting(None, None), None);
}

#[test]
fn node_is_reported_as_it_answered() {
    let ran = |success: bool, stdout: &str, stderr: &str| {
        report_node(NodeCheck::Ran { success, stdout: stdout.to_string(), stderr: stderr.to_string() })
    };
    let good = ran(true, " v20.1.0\n", "");
    assert!(good.ok);
    assert_eq!(good.version.as_deref(), Some("v20.1.0"));
    assert_eq!(good.details, None);
    let silent = ran(true, "\n", "warning");
    assert!(!silent.ok);
    assert_eq!((silent.version, silent.details), (None, None));
    assert_eq!(ran(false, "out", " err ").details.as_deref(), Some("err"));
    assert_eq!(ran(false, " out ", " ").details.as_deref(), Some("out"));
    assert_eq!(ran(false, "", "").details.as_deref(), Some("Node failed to start."));
    assert_eq!(report_node(NodeCheck::NotFound).details.as_deref(), Some("Node not found on PATH."));
    assert_eq!(report_node(NodeCheck::Failed("denied".to_string())).details.as_deref(), Some("denied"));
    assert_eq!(report_node(NodeCheck::TimedOut).details.as_deref(), Some("Timed out while checking Node."));
}

#[test]
fn doctor_report_has_every_field() {
    let node = NodeReport { ok: true, version: Some("v20".to_string()), details: None };
    let bin = Some("/bin/codex".to_string());
    let version = Some("1.0".to_string());
    let report = to_value(&build_doctor_report(&bin, &version, true, &None, &node));
    assert_eq!(
        report,
        v(r#"{
            "ok": true, "codexBin": "/bin/codex", "version": "1.0", "appServerOk": true, "details": null,
            "path": null, "nodeOk": true, "nodeVersion": "v20", "nodeDetails": null
        }"#)
    );
    let broken = to_value(&build_doctor_report(&bin, &version, false, &None, &node));
    assert_eq!(broken["ok"], false);
    assert_eq!(broken["details"], "Failed to run `codex app-server --help`.");
    let missing = to_value(&build_doctor_report(&bin, &None, true, &None, &node));
    assert_eq!(missing["ok"], false);
}
