use opencode_monitor::models::{
    begin_background_model, begin_prompt_model, finish_background_model, finish_prompt_model,
    model_list_debug_from_providers, model_list_response_from_providers, normalize_optional_string,
    provider_has_model, providers_to_use, resolve_model_override_from_providers, ModelStep,
};
use opencode_monitor::json::{Json, JsonNumber};
use serde_json::{Number, Value};

fn v(text: &str) -> Value {
    serde_json::from_str(text).expect("valid JSON")
}

fn to_json(value: &Value) -> Json {
    match value {
        Value::Null => Json::Null,
        Value::Bool(b) => Json::Bool(*b),
        Value::Number(n) => {
            if let Some(u) = n.as_u64() {
                Json::Number(JsonNumber::Unsigned(u))
            } else if let Some(i) = n.as_i64() {
                Json::Number(JsonNumber::Negative(i))
            } else {
                Json::Number(JsonNumber::Float(n.to_string()))
            }
        }
        Value::String(s) => Json::Text(s.clone()),
        Value::Array(items) => Json::Array(items.iter().map(to_json).collect()),
        Value::Object(map) => {
            Json::Object(map.iter().map(|(k, item)| (k.clone(), to_json(item))).collect())
        }
    }
}

fn to_value(json: &Json) -> Value {
    match json {
        Json::Null => Value::Null,
        Json::Bool(b) => Value::Bool(*b),
        Json::Number(JsonNumber::Unsigned(n)) => Value::from(*n),
        Json::Number(JsonNumber::Negative(n)) => Value::from(*n),
        Json::Number(JsonNumber::Float(s)) => Value::Number(s.parse::<Number>().expect("number")),
        Json::Text(s) => Value::String(s.clone()),
        Json::Array(items) => Value::Array(items.iter().map(to_value).collect()),
        Json::Object(entries) => {
            let mut map = serde_json::Map::new();
            for (k, item) in entries {
                map.insert(k.clone(), to_value(item));
            }
            Value::Object(map)
        }
    }
}

fn config() -> Json {
    to_json(&v(
        r#"{
            "providers": [
                { "id": " one ", "models": { "big": { "id": "big-2", "name": " Big ", "variants": { "high": {}, "low": {} } }, "small": {} } },
                { "id": "two", "name": "Two", "models": { "small": { "id": "tiny" }, " ": { "id": " only ", "variants": { "medium": {}, "high": {} } } } },
                { "id": "three" },
                { "models": { "lost": {} } }
            ],
            "default": { "two": "tiny" }
        }"#,
    ))
}

fn settled(step: ModelStep) -> Option<Value> {
    match step {
        ModelStep::Settled(model) => model.as_ref().map(to_value),
        ModelStep::AskProviders => panic!("it is settled"),
    }
}

fn model(provider: &str, id: &str) -> Option<Value> {
    Some(v(&format!(r#"{{ "providerID": "{provider}", "modelID": "{id}" }}"#)))
}

#[test]
fn providers_list_models_by_key_and_by_own_name() {
    let c = config();
    assert!(provider_has_model(&c, "one", " big "));
    assert!(provider_has_model(&c, "one", "big-2"));
    assert!(provider_has_model(&c, "two", "only"));
    assert!(!provider_has_model(&c, "two", "big"));
    assert!(!provider_has_model(&c, "three", "big"));
    assert!(!provider_has_model(&c, "", "lost"));
    assert!(!provider_has_model(&Json::Null, "one", "big"));
}

#[test]
fn a_request_means_one_offered_model() {
    let c = config();
    let resolve = |s: &str| resolve_model_override_from_providers(&c, s).as_ref().map(to_value);
    assert_eq!(resolve(" one / big "), model("one", "big"));
    assert_eq!(resolve("one/huge"), None);
    assert_eq!(resolve("/big"), None);
    assert_eq!(resolve("big"), model("one", "big"));
    assert_eq!(resolve("tiny"), model("two", "tiny"));
    assert_eq!(resolve("small"), None);
    assert_eq!(resolve("  "), None);
}

#[test]
fn a_prompt_model_is_looked_up_only_where_that_can_help() {
    let c = config();
    assert_eq!(settled(begin_prompt_model(Some(&c), "")), None);
    assert_eq!(settled(begin_prompt_model(Some(&c), "big")), model("one", "big"));
    assert_eq!(settled(begin_prompt_model(Some(&c), "one/gone")), None);
    assert_eq!(settled(begin_prompt_model(None, "one / gone")), model("one", "gone"));
    assert_eq!(settled(begin_prompt_model(None, "one/")), None);
    assert!(matches!(begin_prompt_model(Some(&c), "gone"), ModelStep::AskProviders));
    assert!(matches!(begin_prompt_model(None, "big"), ModelStep::AskProviders));
    assert_eq!(finish_prompt_model(Some(&c), " big ").as_ref().map(to_value), model("one", "big"));
    assert_eq!(finish_prompt_model(None, "big").as_ref().map(to_value), None);
}

#[test]
fn a_background_model_with_a_provider_is_taken_as_it_stands() {
    let c = config();
    assert_eq!(settled(begin_background_model(None, None)), None);
    assert_eq!(settled(begin_background_model(None, Some("  "))), None);
    assert_eq!(settled(begin_background_model(None, Some("p / m"))), model("p", "m"));
    assert!(matches!(begin_background_model(None, Some("p/")), ModelStep::AskProviders));
    assert_eq!(finish_background_model(Some(&c), "tiny").as_ref().map(to_value), model("two", "tiny"));
    assert_eq!(finish_background_model(Some(&c), "small").as_ref().map(to_value), None);
    assert_eq!(finish_background_model(None, "tiny").as_ref().map(to_value), None);
    assert_eq!(settled(begin_background_model(Some(&c), Some(" tiny "))), model("two", "tiny"));
    assert_eq!(settled(begin_background_model(Some(&c), Some("small"))), None);
}

#[test]
fn the_list_of_models_has_a_row_for_each() {
    let response = to_value(&model_list_response_from_providers(&config()));
    let data = response["result"]["data"].as_array().expect("rows");
    assert_eq!(data.len(), 5);
    assert_eq!(
        data[0],
        v(r#"{
            "id": " one /big", "model": "big", "provider": " one ", "displayName": "Big", "description": "",
            "supportedReasoningEfforts": [
                { "reasoningEffort": "high", "description": "" }, { "reasoningEffort": "low", "description": "" }
            ],
            "defaultReasoningEffort": "high", "isDefault": false
        }"#)
    );
    assert_eq!(data[2]["model"], "only");
    assert_eq!(data[2]["defaultReasoningEffort"], "medium");
    assert_eq!(data[3]["model"], "small");
    assert_eq!(data[3]["isDefault"], true);
    assert_eq!(data[3]["defaultReasoningEffort"], Value::Null);
    assert_eq!(data[4]["id"], "/lost");
}

#[test]
fn a_listed_model_can_be_chosen_by_its_identifier() {
    let offered = to_json(&v(
        r#"{ "providers": [{ "id": "acme", "models": { "big": { "id": "big-1" }, "org/small": {} } }] }"#,
    ));
    let rows = to_value(&model_list_response_from_providers(&offered));
    let ids: Vec<&str> = rows["result"]["data"].as_array().expect("rows").iter().filter_map(|row| row["id"].as_str()).collect();
    assert_eq!(ids, ["acme/big", "acme/org/small"]);
    let chosen: Vec<Option<Value>> =
        ids.iter().map(|id| resolve_model_override_from_providers(&offered, id).as_ref().map(to_value)).collect();
    assert_eq!(chosen, [model("acme", "big"), model("acme", "org/small")]);
}

#[test]
fn the_debug_list_shows_everything_by_name() {
    let debug = to_value(&model_list_debug_from_providers(&config()));
    assert_eq!(debug["source"], "/config/providers");
    assert_eq!(debug["providerCount"], 4);
    assert_eq!(debug["transformedCount"], 5);
    assert_eq!(debug["providers"][1]["defaultFromConfig"], "tiny");
    assert_eq!(debug["providers"][1]["modelCount"], 2);
    assert_eq!(debug["providers"][1]["models"][0]["key"], " ");
    assert_eq!(debug["providers"][1]["models"][1]["nestedId"], "tiny");
    assert_eq!(debug["providers"][2]["models"], v("[]"));
    let reversed = Json::Object(vec![(
        "providers".to_string(),
        Json::Array(vec![Json::Object(vec![(
            "models".to_string(),
            Json::Object(vec![("b".to_string(), Json::Null), ("a".to_string(), Json::Null)]),
        )])]),
    )]);
    let debug = to_value(&model_list_debug_from_providers(&reversed));
    assert_eq!(debug["providers"][0]["models"][0]["key"], "a");
    assert_eq!(debug["providers"][0]["name"], Value::Null);
}

#[test]
fn optional_strings_are_trimmed() {
    assert_eq!(normalize_optional_string(Some(" a ".to_string())).as_deref(), Some("a"));
    assert_eq!(normalize_optional_string(Some(" ".to_string())), None);
    assert_eq!(normalize_optional_string(None), None);
}

#[test]
fn fresh_providers_go_before_kept_ones() {
    let providers = |id: &str| to_json(&v(&format!(r#"{{ "providers": [{{ "id": "{id}" }}] }}"#)));
    let used = |fresh: Option<Json>, kept: Option<Json>| to_value(&providers_to_use(fresh, kept));
    assert_eq!(used(Some(providers("a")), Some(providers("b"))), to_value(&providers("a")));
    assert_eq!(used(None, Some(providers("b"))), to_value(&providers("b")));
    assert_eq!(used(None, None), v("{}"));
}
