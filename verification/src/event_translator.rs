//! Translation of the server's events into the messages that the thread view consumes.

use vstd::prelude::*;
use vstd::string::*;

use crate::json;
use crate::json::{as_array_in, as_str_in, either, get_in, none, one, or_null, push_json, Json, JsonView, NumberView};
use crate::session_state;
use crate::session_state::{is_text, SessionTranslationState, StateView, TurnView};
use crate::str_map::StrMap;
use crate::text;
use crate::text::{
    byte_len, cat3, decimal_text, join, owned, str_after_bytes, str_eq, str_or, strip_prefix, trim,
    trim_some,
};
use crate::tool_items;
use crate::tool_items::{
    build_explore_entry, build_plan_update, build_task_collab_tool_item, build_todo_list, build_tool_item,
    tool_input_delta_text, tool_kind_to_item_type, DiffsView, FileDiffs,
};

verus! {

// ---------------------------------------------------------------------------
// Shapes of messages
// ---------------------------------------------------------------------------

/// A message: a method and its parameters.
pub open spec fn message(method: Seq<char>, params: JsonView) -> JsonView {
    json::obj().and("method"@, JsonView::Text(method)).and("params"@, params)
}

fn build_message(method: &str, params: Json) -> (r: Json)
    ensures
        r@ == message(method@, params@),
{
    Json::obj().and("method", Json::text(method)).and("params", params)
}

/// A message about an item of a thread.
pub open spec fn item_message(method: Seq<char>, thread_id: Seq<char>, item: JsonView) -> JsonView {
    message(method, json::obj().and("threadId"@, JsonView::Text(thread_id)).and("item"@, item))
}

/// A message about an item of a thread.
pub fn build_item_message(method: &str, thread_id: &str, item: Json) -> (r: Json)
    ensures
        r@ == item_message(method@, thread_id@, item@),
{
    build_message(method, Json::obj().and("threadId", Json::text(thread_id)).and("item", item))
}

/// A message that adds text to an item of a turn.
pub open spec fn delta_message(
    method: Seq<char>,
    thread_id: Seq<char>,
    turn_id: Seq<char>,
    item_id: Seq<char>,
    delta: Seq<char>,
) -> JsonView {
    message(
        method,
        json::obj().and("threadId"@, JsonView::Text(thread_id)).and("turnId"@, JsonView::Text(turn_id)).and(
            "itemId"@,
            JsonView::Text(item_id),
        ).and("delta"@, JsonView::Text(delta)),
    )
}

fn build_delta_message(method: &str, thread_id: &str, turn_id: &str, item_id: &str, delta: &str) -> (r: Json)
    ensures
        r@ == delta_message(method@, thread_id@, turn_id@, item_id@, delta@),
{
    build_message(
        method,
        Json::obj().and("threadId", Json::text(thread_id)).and("turnId", Json::text(turn_id)).and(
            "itemId",
            Json::text(item_id),
        ).and("delta", Json::text(delta)),
    )
}

/// The content of a user message that holds one text.
pub open spec fn text_content(s: Seq<char>) -> JsonView {
    JsonView::Array(seq![json::obj().and("type"@, JsonView::Text("text"@)).and("text"@, JsonView::Text(s))])
}

/// The item of a user message.
pub open spec fn user_message_item(item_id: Seq<char>, content: JsonView) -> JsonView {
    json::obj().and("id"@, JsonView::Text(item_id)).and("type"@, JsonView::Text("userMessage"@)).and(
        "content"@,
        content,
    )
}

/// The item of a user message.
pub fn build_user_message_item(item_id: &str, content: Json) -> (r: Json)
    ensures
        r@ == user_message_item(item_id@, content@),
{
    Json::obj().and("id", Json::text(item_id)).and("type", Json::text("userMessage")).and("content", content)
}

fn build_text_content(s: &str) -> (r: Json)
    ensures
        r@ == text_content(s@),
{
    Json::array(one(Json::obj().and("type", Json::text("text")).and("text", Json::text(s))))
}

/// A turn of a thread.
pub open spec fn turn_params(session_id: Seq<char>, turn_id: Seq<char>) -> JsonView {
    json::obj().and("threadId"@, JsonView::Text(session_id)).and(
        "turn"@,
        json::obj().and("id"@, JsonView::Text(turn_id)).and("threadId"@, JsonView::Text(session_id)),
    )
}

fn build_turn_params(session_id: &str, turn_id: &str) -> (r: Json)
    ensures
        r@ == turn_params(session_id@, turn_id@),
{
    Json::obj().and("threadId", Json::text(session_id)).and(
        "turn",
        Json::obj().and("id", Json::text(turn_id)).and("threadId", Json::text(session_id)),
    )
}

/// The message that a turn has started.
pub open spec fn turn_started(session_id: Seq<char>, turn_id: Seq<char>) -> JsonView {
    message("turn/started"@, turn_params(session_id, turn_id))
}

/// The message that a turn is over.
pub open spec fn turn_completed(session_id: Seq<char>, turn_id: Seq<char>) -> JsonView {
    message("turn/completed"@, turn_params(session_id, turn_id))
}

/// The message that a turn has started.
pub fn build_turn_started(session_id: &str, turn_id: &str) -> (r: Json)
    ensures
        r@ == turn_started(session_id@, turn_id@),
{
    build_message("turn/started", build_turn_params(session_id, turn_id))
}

/// The message that a turn is over.
pub fn build_turn_completed(session_id: &str, turn_id: &str) -> (r: Json)
    ensures
        r@ == turn_completed(session_id@, turn_id@),
{
    build_message("turn/completed", build_turn_params(session_id, turn_id))
}

/// The message that an agent message is complete.
pub open spec fn agent_message_completed(s: StateView, session_id: Seq<char>) -> Option<JsonView> {
    match s.turn(session_id).agent_message_item_id {
        Some(id) => Some(
            item_message(
                "item/completed"@,
                session_id,
                json::obj().and("id"@, JsonView::Text(id)).and("type"@, JsonView::Text("agentMessage"@)).and(
                    "text"@,
                    JsonView::Text(""@),
                ),
            ),
        ),
        None => None,
    }
}

/// The message that the session's agent message is complete; nothing where none is being streamed.
pub fn build_agent_message_completed(state: &SessionTranslationState, session_id: &str) -> (r: Option<Json>)
    ensures
        json::opt_json_owned(r) == agent_message_completed(state@, session_id@),
{
    match state.get_turn_state(session_id) {
        Some(turn) => match &turn.agent_message_item_id {
            Some(id) => Some(
                build_item_message(
                    "item/completed",
                    session_id,
                    Json::obj().and("id", Json::text(id.as_str())).and("type", Json::text("agentMessage")).and(
                        "text",
                        Json::text(""),
                    ),
                ),
            ),
            None => None,
        },
        None => None,
    }
}

/// The message that a turn has failed.
pub open spec fn error_message(thread_id: Seq<char>, turn_id: Seq<char>, error: Seq<char>) -> JsonView {
    message(
        "error"@,
        json::obj().and("threadId"@, JsonView::Text(thread_id)).and("turnId"@, JsonView::Text(turn_id)).and(
            "willRetry"@,
            JsonView::Bool(false),
        ).and("error"@, json::obj().and("message"@, JsonView::Text(error))),
    )
}

/// The message that a turn has failed.
pub fn build_error_message(thread_id: &str, turn_id: &str, error: &str) -> (r: Json)
    ensures
        r@ == error_message(thread_id@, turn_id@, error@),
{
    build_message(
        "error",
        Json::obj().and("threadId", Json::text(thread_id)).and("turnId", Json::text(turn_id)).and(
            "willRetry",
            Json::Bool(false),
        ).and("error", Json::obj().and("message", Json::text(error))),
    )
}

// ---------------------------------------------------------------------------
// Text and numbers of events
// ---------------------------------------------------------------------------

/// The part of a text that follows the bytes already sent; nothing where nothing follows, or where
/// the bytes already sent end within a character.
pub open spec fn unseen(full_text: Seq<char>, emitted_len: nat) -> Option<Seq<char>> {
    if full_text.len() == 0 {
        None
    } else if emitted_len == 0 {
        Some(full_text)
    } else if text::byte_len_of(full_text) <= emitted_len {
        None
    } else {
        text::after_bytes(full_text, emitted_len)
    }
}

/// The part of a text that follows the bytes already sent.
pub fn unseen_suffix<'a>(full_text: &'a str, emitted_len: usize) -> (r: Option<&'a str>)
    ensures
        text::opt_text(r) == unseen(full_text@, emitted_len as nat),
        r matches Some(s) ==> s@.len() > 0,
{
    if full_text.is_empty() {
        return None;
    }
    if emitted_len == 0 {
        return Some(full_text);
    }
    if byte_len(full_text) <= emitted_len {
        return None;
    }
    proof {
        text::lemma_after_bytes_len(full_text@, emitted_len as nat);
    }
    str_after_bytes(full_text, emitted_len)
}

/// A count in an event: a non-negative integer, or a string that denotes a positive one.
pub open spec fn count_of(value: Option<JsonView>) -> Option<u64> {
    match value {
        Some(v) => match v.as_u64() {
            Some(n) => Some(n),
            None => match v.as_str() {
                Some(s) => match text::parsed_u64(text::trim_of(s)) {
                    Some(n) => if n > 0 {
                        Some(n)
                    } else {
                        None
                    },
                    None => None,
                },
                None => None,
            },
        },
        None => None,
    }
}

/// A count in an event.
pub fn parse_u64(value: Option<&Json>) -> (r: Option<u64>)
    ensures
        r == count_of(json::opt_json(value)),
{
    match value {
        Some(v) => match v.as_u64() {
            Some(n) => Some(n),
            None => match v.as_str() {
                Some(s) => match text::parse_u64(trim(s)) {
                    Some(n) => if n > 0 {
                        Some(n)
                    } else {
                        None
                    },
                    None => None,
                },
                None => None,
            },
        },
        None => None,
    }
}

/// The name of a model: its own, or else the one under which it is listed.
pub open spec fn listed_model_id(key: Seq<char>, model: JsonView) -> Seq<char> {
    text::text_or(text::trimmed_some(model.get_str("id"@)), key)
}

/// The context windows with those of the first models of a provider added.
pub open spec fn windows_with_models(
    windows: Map<Seq<char>, u64>,
    provider_id: Seq<char>,
    models: Seq<(Seq<char>, JsonView)>,
) -> Map<Seq<char>, u64>
    decreases models.len(),
{
    if models.len() == 0 {
        windows
    } else {
        let before = windows_with_models(windows, provider_id, models.drop_last());
        let (key, model) = models.last();
        let id = listed_model_id(key, model);
        match count_of(json::get_of(model.get("limit"@), "context"@)) {
            Some(n) => if id.len() > 0 {
                before.insert(provider_id + "/"@ + id, n)
            } else {
                before
            },
            None => before,
        }
    }
}

/// The context windows with those of one provider added.
pub open spec fn windows_with_provider(windows: Map<Seq<char>, u64>, provider: JsonView) -> Map<Seq<char>, u64> {
    let id = text::trim_of(text::text_or(provider.get_str("id"@), ""@));
    if id.len() == 0 {
        windows
    } else {
        match provider.get("models"@) {
            Some(JsonView::Object(models)) => windows_with_models(windows, id, models),
            _ => windows,
        }
    }
}

/// The context windows of a list of providers.
pub open spec fn windows_of(providers: Seq<JsonView>) -> Map<Seq<char>, u64>
    decreases providers.len(),
{
    if providers.len() == 0 {
        Map::empty()
    } else {
        windows_with_provider(windows_of(providers.drop_last()), providers.last())
    }
}

fn add_model_windows(windows: &mut StrMap<u64>, provider_id: &str, models: &Vec<(String, Json)>)
    ensures
        final(windows)@ == windows_with_models(old(windows)@, provider_id@, json::json_entries(models@)),
{
    let mut i: usize = 0;
    let ghost all = json::json_entries(models@);
    let ghost start = windows@;
    while i < models.len()
        invariant
            i <= models@.len(),
            all == json::json_entries(models@),
            windows@ == windows_with_models(start, provider_id@, all.take(i as int)),
        decreases models@.len() - i,
    {
        proof {
            assert(all.take(i + 1).drop_last() =~= all.take(i as int));
            assert(all.take(i + 1).last() == all[i as int]);
        }
        let model = &models[i].1;
        let id: &str = str_or(trim_some(model.get_str("id")), models[i].0.as_str());
        if let Some(n) = parse_u64(get_in(model.get("limit"), "context")) {
            if !id.is_empty() {
                windows.insert(cat3(provider_id, "/", id).as_str(), n);
            }
        }
        i = i + 1;
    }
    assert(all.take(all.len() as int) =~= all);
}

/// The context windows that the configured providers list for their models.
pub open spec fn context_windows(config: JsonView) -> Map<Seq<char>, u64> {
    windows_of(
        match json::as_array_of(config.get("providers"@)) {
            Some(providers) => providers,
            None => Seq::empty(),
        },
    )
}

/// The context windows that the configured providers list for their models.
pub fn extract_model_context_windows(config_providers: &Json) -> (r: StrMap<u64>)
    ensures
        r@ == context_windows(config_providers@),
{
    let mut windows: StrMap<u64> = StrMap::new();
    let found = as_array_in(config_providers.get("providers"));
    if let Some(providers) = found {
        let mut i: usize = 0;
        let ghost all = json::json_views(providers@);
        while i < providers.len()
            invariant
                i <= providers@.len(),
                all == json::json_views(providers@),
                windows@ == windows_of(all.take(i as int)),
            decreases providers@.len() - i,
        {
            proof {
                assert(all.take(i + 1).drop_last() =~= all.take(i as int));
                assert(all.take(i + 1).last() == all[i as int]);
            }
            let provider = &providers[i];
            let id: &str = trim(str_or(provider.get_str("id"), ""));
            if !id.is_empty() {
                if let Some(Json::Object(models)) = provider.get("models") {
                    add_model_windows(&mut windows, id, models);
                }
            }
            i = i + 1;
        }
        assert(all.take(all.len() as int) =~= all);
    }
    windows
}

// ---------------------------------------------------------------------------
// Streaming of message parts
// ---------------------------------------------------------------------------

/// What an event does: the state after it, and the messages that it gives.
pub type Outcome = (StateView, Seq<JsonView>);

/// The state with the session that an event names as the active one.
pub open spec fn entered(s: StateView, session_id: Option<Seq<char>>) -> StateView {
    match session_id {
        Some(id) => if id.len() > 0 {
            s.with_session(id)
        } else {
            s
        },
        None => s,
    }
}

fn enter(state: &mut SessionTranslationState, session_id: Option<&str>)
    ensures
        final(state)@ == entered(old(state)@, text::opt_text(session_id)),
{
    if let Some(id) = session_id {
        if !id.is_empty() {
            state.session_id = id.to_owned();
        }
    }
}

/// A chunk of a user message: it is put behind the text that the session's user message has so
/// far, and the whole message is sent.
pub open spec fn user_chunk(s: StateView, thread_id: Seq<char>, chunk: Seq<char>) -> Outcome {
    let turn = s.turn(thread_id);
    let full_text = turn.user_message_text + chunk;
    let (after, item_id) = s.with_turn(
        thread_id,
        TurnView { user_message_text: full_text, ..turn },
    ).user_message_item(thread_id);
    (
        after,
        seq![item_message("item/completed"@, thread_id, user_message_item(item_id, text_content(full_text)))],
    )
}

fn translate_user_chunk(state: &mut SessionTranslationState, thread_id: &str, chunk: &str) -> (r: Vec<Json>)
    ensures
        (final(state)@, json::json_views(r@)) == user_chunk(old(state)@, thread_id@, chunk@),
{
    let turn = state.get_turn_state_mut(thread_id);
    turn.user_message_text.append(chunk);
    let full_text: String = turn.user_message_text.clone();
    let item_id: String = state.user_message_item(thread_id);
    one(
        build_item_message(
            "item/completed",
            thread_id,
            build_user_message_item(item_id.as_str(), build_text_content(full_text.as_str())),
        ),
    )
}

/// The new text in an update of a user message: the delta, or else what the full text has beyond
/// the text so far.
pub open spec fn user_text_chunk(full_text: Seq<char>, delta: Seq<char>, so_far: Seq<char>) -> Seq<char> {
    if delta.len() > 0 {
        delta
    } else {
        text::text_or(text::after_prefix(full_text, so_far), full_text)
    }
}

/// An update of a text part of the user.
pub open spec fn user_text_updated(
    s: StateView,
    thread_id: Seq<char>,
    full_text: Seq<char>,
    delta: Seq<char>,
) -> Outcome {
    let chunk = user_text_chunk(full_text, delta, s.turn(thread_id).user_message_text);
    if chunk.len() == 0 {
        (s, Seq::empty())
    } else {
        user_chunk(s, thread_id, chunk)
    }
}

fn translate_user_text_updated(
    state: &mut SessionTranslationState,
    thread_id: &str,
    full_text: &str,
    delta: &str,
) -> (r: Vec<Json>)
    ensures
        (final(state)@, json::json_views(r@)) == user_text_updated(
            old(state)@,
            thread_id@,
            full_text@,
            delta@,
        ),
{
    let chunk: String = if !delta.is_empty() {
        delta.to_owned()
    } else {
        let so_far: String = match state.get_turn_state(thread_id) {
            Some(turn) => turn.user_message_text.clone(),
            None => String::new(),
        };
        assert(so_far@ =~= state@.turn(thread_id@).user_message_text);
        str_or(strip_prefix(full_text, so_far.as_str()), full_text).to_owned()
    };
    if chunk.as_str().is_empty() {
        none()
    } else {
        translate_user_chunk(state, thread_id, chunk.as_str())
    }
}

/// The new text in an update of a streamed part: the delta, or else what the full text has beyond
/// the bytes already sent.
pub open spec fn stream_chunk(full_text: Seq<char>, delta: Seq<char>, emitted_len: nat) -> Option<Seq<char>> {
    if delta.len() > 0 {
        Some(delta)
    } else {
        unseen(full_text, emitted_len)
    }
}

/// The number of bytes sent after an update of a streamed part.
pub open spec fn stream_len(full_text: Seq<char>, delta: Seq<char>, emitted_len: nat) -> nat {
    if delta.len() > 0 {
        emitted_len + text::byte_len_of(delta)
    } else {
        text::byte_len_of(full_text)
    }
}

/// The state in which the text part that an update names is the one that is being streamed.
pub open spec fn text_part_entered(s: StateView, thread_id: Seq<char>, part_id: Option<Seq<char>>) -> StateView {
    let turn = s.turn(thread_id);
    match part_id {
        Some(id) => if turn.agent_message_part_id != Some(id) {
            s.with_turn(
                thread_id,
                TurnView { agent_message_part_id: Some(id), agent_message_text_len: 0, ..turn },
            )
        } else {
            s.with_turn(thread_id, turn)
        },
        None => s,
    }
}

/// An update of a text part of the agent.
pub open spec fn agent_text_updated(
    s: StateView,
    thread_id: Seq<char>,
    part_id: Option<Seq<char>>,
    full_text: Seq<char>,
    delta: Seq<char>,
) -> Outcome {
    let turn_id = s.turn(thread_id).turn_id;
    let s1 = text_part_entered(s, thread_id, part_id);
    let turn = s1.turn(thread_id);
    match stream_chunk(full_text, delta, turn.agent_message_text_len) {
        Some(chunk) => {
            let len = stream_len(full_text, delta, turn.agent_message_text_len);
            let (s2, item_id) = s1.with_turn(
                thread_id,
                TurnView { agent_message_text_len: len, ..turn },
            ).agent_message_item(thread_id);
            (s2, seq![delta_message("item/agentMessage/delta"@, thread_id, turn_id, item_id, chunk)])
        },
        None => (s1, Seq::empty()),
    }
}

fn translate_agent_text_updated(
    state: &mut SessionTranslationState,
    thread_id: &str,
    part_id: Option<&str>,
    full_text: &str,
    delta: &str,
) -> (r: Vec<Json>)
    requires
        delta@.len() > 0 ==> text_part_entered(old(state)@, thread_id@, text::opt_text(part_id)).turn(
            thread_id@,
        ).agent_message_text_len + text::byte_len_of(delta@) <= usize::MAX,
    ensures
        (final(state)@, json::json_views(r@)) == agent_text_updated(
            old(state)@,
            thread_id@,
            text::opt_text(part_id),
            full_text@,
            delta@,
        ),
{
    let turn_id: String = state.turn_id(thread_id);
    if let Some(id) = part_id {
        let turn = state.get_turn_state_mut(thread_id);
        if !is_text(&turn.agent_message_part_id, id) {
            turn.agent_message_part_id = Some(id.to_owned());
            turn.agent_message_text_len = 0;
        }
    }
    let emitted_len: usize = match state.get_turn_state(thread_id) {
        Some(turn) => turn.agent_message_text_len,
        None => 0,
    };
    let found: Option<&str> = if !delta.is_empty() {
        Some(delta)
    } else {
        unseen_suffix(full_text, emitted_len)
    };
    match found {
        Some(chunk) => {
            let len: usize = if !delta.is_empty() {
                emitted_len + byte_len(delta)
            } else {
                byte_len(full_text)
            };
            state.get_turn_state_mut(thread_id).agent_message_text_len = len;
            let item_id: String = state.agent_message_item(thread_id);
            one(
                build_delta_message(
                    "item/agentMessage/delta",
                    thread_id,
                    turn_id.as_str(),
                    item_id.as_str(),
                    chunk,
                ),
            )
        },
        None => none(),
    }
}

/// The state in which the reasoning part that an update names is the one that is being streamed.
pub open spec fn reasoning_part_entered(
    s: StateView,
    thread_id: Seq<char>,
    part_id: Option<Seq<char>>,
) -> StateView {
    let turn = s.turn(thread_id);
    match part_id {
        Some(id) => if turn.reasoning_part_id != Some(id) {
            s.with_turn(thread_id, TurnView { reasoning_part_id: Some(id), reasoning_text_len: 0, ..turn })
        } else {
            s.with_turn(thread_id, turn)
        },
        None => s,
    }
}

/// An update of a reasoning part.
pub open spec fn reasoning_updated(
    s: StateView,
    thread_id: Seq<char>,
    part_id: Option<Seq<char>>,
    full_text: Seq<char>,
    delta: Seq<char>,
) -> Outcome {
    let turn_id = s.turn(thread_id).turn_id;
    let s1 = reasoning_part_entered(s, thread_id, part_id);
    let turn = s1.turn(thread_id);
    match stream_chunk(full_text, delta, turn.reasoning_text_len) {
        Some(chunk) => {
            let len = stream_len(full_text, delta, turn.reasoning_text_len);
            let (s2, item_id) = s1.with_turn(
                thread_id,
                TurnView { reasoning_text_len: len, ..turn },
            ).reasoning_item(thread_id);
            (s2, seq![delta_message("item/reasoning/textDelta"@, thread_id, turn_id, item_id, chunk)])
        },
        None => (s1, Seq::empty()),
    }
}

fn translate_reasoning_updated(
    state: &mut SessionTranslationState,
    thread_id: &str,
    part_id: Option<&str>,
    full_text: &str,
    delta: &str,
) -> (r: Vec<Json>)
    requires
        delta@.len() > 0 ==> reasoning_part_entered(old(state)@, thread_id@, text::opt_text(part_id)).turn(
            thread_id@,
        ).reasoning_text_len + text::byte_len_of(delta@) <= usize::MAX,
    ensures
        (final(state)@, json::json_views(r@)) == reasoning_updated(
            old(state)@,
            thread_id@,
            text::opt_text(part_id),
            full_text@,
            delta@,
        ),
{
    let turn_id: String = state.turn_id(thread_id);
    if let Some(id) = part_id {
        let turn = state.get_turn_state_mut(thread_id);
        if !is_text(&turn.reasoning_part_id, id) {
            turn.reasoning_part_id = Some(id.to_owned());
            turn.reasoning_text_len = 0;
        }
    }
    let emitted_len: usize = match state.get_turn_state(thread_id) {
        Some(turn) => turn.reasoning_text_len,
        None => 0,
    };
    let found: Option<&str> = if !delta.is_empty() {
        Some(delta)
    } else {
        unseen_suffix(full_text, emitted_len)
    };
    match found {
        Some(chunk) => {
            let len: usize = if !delta.is_empty() {
                emitted_len + byte_len(delta)
            } else {
                byte_len(full_text)
            };
            state.get_turn_state_mut(thread_id).reasoning_text_len = len;
            let item_id: String = state.reasoning_item(thread_id);
            one(
                build_delta_message(
                    "item/reasoning/textDelta",
                    thread_id,
                    turn_id.as_str(),
                    item_id.as_str(),
                    chunk,
                ),
            )
        },
        None => none(),
    }
}

/// A summary line of the reasoning: a new summary part is opened and the line is put into it.
pub open spec fn reasoning_summary(s: StateView, thread_id: Seq<char>, line: Seq<char>) -> Outcome {
    let summary = text::trim_of(line);
    if summary.len() == 0 {
        (s, Seq::empty())
    } else {
        let turn_id = s.turn(thread_id).turn_id;
        let (after, item_id) = s.reasoning_item(thread_id);
        (
            after,
            Seq::empty().push(
                message(
                    "item/reasoning/summaryPartAdded"@,
                    json::obj().and("threadId"@, JsonView::Text(thread_id)).and("turnId"@, JsonView::Text(turn_id)).and(
                        "itemId"@,
                        JsonView::Text(item_id),
                    ),
                ),
            ).push(delta_message("item/reasoning/summaryTextDelta"@, thread_id, turn_id, item_id, summary)),
        )
    }
}

fn translate_reasoning_summary(state: &mut SessionTranslationState, thread_id: &str, line: &str) -> (r: Vec<Json>)
    ensures
        (final(state)@, json::json_views(r@)) == reasoning_summary(old(state)@, thread_id@, line@),
{
    let summary: &str = trim(line);
    if summary.is_empty() {
        return none();
    }
    let turn_id: String = state.turn_id(thread_id);
    let item_id: String = state.reasoning_item(thread_id);
    let mut events: Vec<Json> = none();
    push_json(
        &mut events,
        build_message(
            "item/reasoning/summaryPartAdded",
            Json::obj().and("threadId", Json::text(thread_id)).and("turnId", Json::text(turn_id.as_str())).and(
                "itemId",
                Json::text(item_id.as_str()),
            ),
        ),
    );
    push_json(
        &mut events,
        build_delta_message(
            "item/reasoning/summaryTextDelta",
            thread_id,
            turn_id.as_str(),
            item_id.as_str(),
            summary,
        ),
    );
    events
}

/// The label of a subtask: its description, or else its prompt.
pub open spec fn subtask_label(part: JsonView) -> Seq<char> {
    let description = text::text_or(part.get_str("description"@), ""@);
    if text::trim_of(description).len() == 0 {
        text::text_or(part.get_str("prompt"@), ""@)
    } else {
        description
    }
}

/// The message of a part.
pub open spec fn message_id_of(j: JsonView) -> Seq<char> {
    text::text_or(json::as_str_of(json::either_of(j.get("messageID"@), j.get("messageId"@))), ""@)
}

/// An update of a message part.
pub open spec fn part_updated(properties: JsonView, s: StateView, diffs: DiffsView) -> Outcome {
    match properties.get("part"@) {
        Some(part) => {
            let delta = text::text_or(properties.get_str("delta"@), ""@);
            let full_text = text::text_or(part.get_str("text"@), ""@);
            let kind = text::text_or(part.get_str("type"@), ""@);
            let s1 = entered(s, part.get_str("sessionID"@));
            let thread_id = s1.session_id;
            let by_user = s1.is_user_message_id(message_id_of(part));
            if kind == "text"@ {
                if by_user {
                    user_text_updated(s1, thread_id, full_text, delta)
                } else {
                    agent_text_updated(s1, thread_id, part.get_str("id"@), full_text, delta)
                }
            } else if kind == "reasoning"@ {
                if by_user {
                    (s1, Seq::empty())
                } else {
                    reasoning_updated(s1, thread_id, part.get_str("id"@), full_text, delta)
                }
            } else if kind == "subtask"@ {
                reasoning_summary(s1, thread_id, subtask_label(part))
            } else if kind == "agent"@ {
                reasoning_summary(s1, thread_id, text::text_or(part.get_str("name"@), ""@))
            } else if kind == "tool"@ {
                tool_part(part, s1, thread_id, diffs)
            } else {
                (s1, Seq::empty())
            }
        },
        None => (s, Seq::empty()),
    }
}

/// Whether the number of bytes sent after an update of a message part can be counted.
pub open spec fn part_update_fits(properties: JsonView, s: StateView) -> bool {
    match properties.get("part"@) {
        Some(part) => {
            let delta = text::text_or(properties.get_str("delta"@), ""@);
            let kind = text::text_or(part.get_str("type"@), ""@);
            let s1 = entered(s, part.get_str("sessionID"@));
            let thread_id = s1.session_id;
            let part_id = part.get_str("id"@);
            if delta.len() == 0 || s1.is_user_message_id(message_id_of(part)) {
                true
            } else if kind == "text"@ {
                text_part_entered(s1, thread_id, part_id).turn(thread_id).agent_message_text_len
                    + text::byte_len_of(delta) <= usize::MAX
            } else if kind == "reasoning"@ {
                reasoning_part_entered(s1, thread_id, part_id).turn(thread_id).reasoning_text_len
                    + text::byte_len_of(delta) <= usize::MAX
            } else {
                true
            }
        },
        None => true,
    }
}

/// Translates an update of a message part.
pub fn translate_part_updated(
    properties: &Json,
    state: &mut SessionTranslationState,
    diffs: &FileDiffs,
) -> (r: Vec<Json>)
    requires
        part_update_fits(properties@, old(state)@),
    ensures
        (final(state)@, json::json_views(r@)) == part_updated(properties@, old(state)@, diffs@),
{
    let part = match properties.get("part") {
        Some(part) => part,
        None => return none(),
    };
    let delta: &str = str_or(properties.get_str("delta"), "");
    let full_text: &str = str_or(part.get_str("text"), "");
    let kind: &str = str_or(part.get_str("type"), "");
    let message_id: &str = str_or(as_str_in(either(part.get("messageID"), part.get("messageId"))), "");
    enter(state, part.get_str("sessionID"));
    let thread_id: String = state.session_id.clone();
    if str_eq(kind, "text") {
        if state.is_user_message_id(message_id) {
            translate_user_text_updated(state, thread_id.as_str(), full_text, delta)
        } else {
            translate_agent_text_updated(state, thread_id.as_str(), part.get_str("id"), full_text, delta)
        }
    } else if str_eq(kind, "reasoning") {
        if state.is_user_message_id(message_id) {
            none()
        } else {
            translate_reasoning_updated(state, thread_id.as_str(), part.get_str("id"), full_text, delta)
        }
    } else if str_eq(kind, "subtask") {
        let description: &str = str_or(part.get_str("description"), "");
        let label: &str = if trim(description).is_empty() {
            str_or(part.get_str("prompt"), "")
        } else {
            description
        };
        translate_reasoning_summary(state, thread_id.as_str(), label)
    } else if str_eq(kind, "agent") {
        translate_reasoning_summary(state, thread_id.as_str(), str_or(part.get_str("name"), ""))
    } else if str_eq(kind, "tool") {
        translate_tool_part(part, state, thread_id.as_str(), diffs)
    } else {
        none()
    }
}

/// The removal of a message part.
pub open spec fn part_removed(properties: JsonView, s: StateView) -> Outcome {
    let s1 = entered(s, properties.get_str("sessionID"@));
    (
        s1.remove_part_mapping(s1.session_id, text::text_or(properties.get_str("partID"@), ""@)),
        Seq::empty(),
    )
}

/// Translates the removal of a message part.
pub fn translate_part_removed(properties: &Json, state: &mut SessionTranslationState) -> (r: Vec<Json>)
    ensures
        (final(state)@, json::json_views(r@)) == part_removed(properties@, old(state)@),
{
    enter(state, properties.get_str("sessionID"));
    let thread_id: String = state.session_id.clone();
    let part_id: &str = str_or(properties.get_str("partID"), "");
    state.remove_part_mapping(thread_id.as_str(), part_id);
    none()
}

/// A delta of a reasoning part.
pub open spec fn reasoning_delta(s: StateView, thread_id: Seq<char>, delta: Seq<char>) -> Outcome {
    let turn_id = s.turn(thread_id).turn_id;
    let (s1, item_id) = s.reasoning_item(thread_id);
    let turn = s1.turn(thread_id);
    (
        s1.with_turn(
            thread_id,
            TurnView { reasoning_text_len: turn.reasoning_text_len + text::byte_len_of(delta), ..turn },
        ),
        seq![delta_message("item/reasoning/textDelta"@, thread_id, turn_id, item_id, delta)],
    )
}

/// The part that a delta names, where it names one.
pub open spec fn named_part(part_id: Seq<char>) -> Option<Seq<char>> {
    if part_id.len() > 0 {
        Some(part_id)
    } else {
        None
    }
}

/// A delta of a text part of the agent. A part that was not the current one becomes it, and nothing
/// of it was sent before.
pub open spec fn agent_delta(s: StateView, thread_id: Seq<char>, part_id: Seq<char>, delta: Seq<char>) -> Outcome {
    let turn_id = s.turn(thread_id).turn_id;
    let (s1, item_id) = text_part_entered(s, thread_id, named_part(part_id)).agent_message_item(thread_id);
    let turn = s1.turn(thread_id);
    (
        s1.with_turn(
            thread_id,
            TurnView { agent_message_text_len: turn.agent_message_text_len + text::byte_len_of(delta), ..turn },
        ),
        seq![delta_message("item/agentMessage/delta"@, thread_id, turn_id, item_id, delta)],
    )
}

/// A delta of a text or reasoning part: one of the current reasoning part is reasoning, and every
/// other one is text of the agent.
pub open spec fn text_delta(s: StateView, thread_id: Seq<char>, part_id: Seq<char>, delta: Seq<char>) -> Outcome {
    if s.turn(thread_id).reasoning_part_id == Some(part_id) {
        reasoning_delta(s, thread_id, delta)
    } else {
        agent_delta(s, thread_id, part_id, delta)
    }
}

/// A delta of a message part.
pub open spec fn part_delta(properties: JsonView, s: StateView) -> Outcome {
    let delta = text::text_or(properties.get_str("delta"@), ""@);
    if delta.len() == 0 {
        (s, Seq::empty())
    } else {
        let s1 = entered(s, properties.get_str("sessionID"@));
        let thread_id = s1.session_id;
        let field = text::text_or(properties.get_str("field"@), "text"@);
        let part_id = text::text_or(properties.get_str("partID"@), ""@);
        if field != "text"@ {
            (s1, Seq::empty())
        } else if s1.is_user_message_id(message_id_of(properties)) {
            user_chunk(s1, thread_id, delta)
        } else {
            text_delta(s1, thread_id, part_id, delta)
        }
    }
}

/// Whether the number of bytes sent after a delta can be counted.
pub open spec fn part_delta_fits(properties: JsonView, s: StateView) -> bool {
    let delta = text::text_or(properties.get_str("delta"@), ""@);
    let s1 = entered(s, properties.get_str("sessionID"@));
    let turn = s1.turn(s1.session_id);
    let field = text::text_or(properties.get_str("field"@), "text"@);
    let part_id = text::text_or(properties.get_str("partID"@), ""@);
    if delta.len() == 0 || field != "text"@ || s1.is_user_message_id(message_id_of(properties)) {
        true
    } else if turn.reasoning_part_id == Some(part_id) {
        turn.reasoning_text_len + text::byte_len_of(delta) <= usize::MAX
    } else {
        text_part_entered(s1, s1.session_id, named_part(part_id)).turn(s1.session_id).agent_message_text_len
            + text::byte_len_of(delta) <= usize::MAX
    }
}

/// Translates a delta of a message part.
pub fn translate_part_delta(properties: &Json, state: &mut SessionTranslationState) -> (r: Vec<Json>)
    requires
        part_delta_fits(properties@, old(state)@),
    ensures
        (final(state)@, json::json_views(r@)) == part_delta(properties@, old(state)@),
{
    let delta: &str = str_or(properties.get_str("delta"), "");
    if delta.is_empty() {
        return none();
    }
    enter(state, properties.get_str("sessionID"));
    let field: &str = str_or(properties.get_str("field"), "text");
    let message_id: &str = str_or(as_str_in(either(properties.get("messageID"), properties.get("messageId"))), "");
    let thread: String = state.session_id.clone();
    let thread_id: &str = thread.as_str();
    let turn_id: String = state.turn_id(thread_id);
    if !str_eq(field, "text") {
        return none();
    }
    if state.is_user_message_id(message_id) {
        return translate_user_chunk(state, thread_id, delta);
    }
    let part_id: &str = str_or(properties.get_str("partID"), "");
    let is_reasoning: bool = match state.get_turn_state(thread_id) {
        Some(turn) => is_text(&turn.reasoning_part_id, part_id),
        None => false,
    };
    if is_reasoning {
        let item_id: String = state.reasoning_item(thread_id);
        let turn = state.get_turn_state_mut(thread_id);
        turn.reasoning_text_len = turn.reasoning_text_len + byte_len(delta);
        return one(
            build_delta_message("item/reasoning/textDelta", thread_id, turn_id.as_str(), item_id.as_str(), delta),
        );
    }
    if !part_id.is_empty() {
        let turn = state.get_turn_state_mut(thread_id);
        if !is_text(&turn.agent_message_part_id, part_id) {
            turn.agent_message_part_id = Some(part_id.to_owned());
            turn.agent_message_text_len = 0;
        }
    }
    let item_id: String = state.agent_message_item(thread_id);
    let turn = state.get_turn_state_mut(thread_id);
    turn.agent_message_text_len = turn.agent_message_text_len + byte_len(delta);
    one(build_delta_message("item/agentMessage/delta", thread_id, turn_id.as_str(), item_id.as_str(), delta))
}

// ---------------------------------------------------------------------------
// Tool parts
// ---------------------------------------------------------------------------

/// Whether a tool call has not ended yet.
pub open spec fn is_live(status: Seq<char>) -> bool {
    status == "pending"@ || status == "running"@
}

/// Whether a tool call has ended.
pub open spec fn is_over(status: Seq<char>) -> bool {
    status == "completed"@ || status == "error"@
}

fn live(status: &str) -> (r: bool)
    ensures
        r == is_live(status@),
{
    str_eq(status, "pending") || str_eq(status, "running")
}

fn over(status: &str) -> (r: bool)
    ensures
        r == is_over(status@),
{
    str_eq(status, "completed") || str_eq(status, "error")
}

/// The state after a tool call: once the call has ended, text of the agent starts a new message.
pub open spec fn settled(s: StateView, thread_id: Seq<char>, status: Seq<char>) -> StateView {
    if is_over(status) {
        s.reset_agent_message_item(thread_id)
    } else {
        s
    }
}

fn settle(state: &mut SessionTranslationState, thread_id: &str, status: &str)
    ensures
        final(state)@ == settled(old(state)@, thread_id@, status@),
{
    if over(status) {
        state.reset_agent_message_item(thread_id);
    }
}

/// The status of the item that shows a task, for a call of the given status.
pub open spec fn task_item_status(status: Seq<char>) -> Seq<char> {
    if status == "completed"@ {
        "completed"@
    } else if status == "error"@ {
        "failed"@
    } else {
        "in_progress"@
    }
}

/// The messages for a tool that runs or has ended, which is neither a task, nor a todo list, nor
/// an exploration.
pub open spec fn plain_tool_messages(
    item_id: Seq<char>,
    thread_id: Seq<char>,
    tool_name: Seq<char>,
    status: Seq<char>,
    tool_state: JsonView,
    diffs: DiffsView,
) -> Seq<JsonView> {
    let item_type = tool_items::item_type_of(tool_name);
    let raw_input = tool_state.get("input"@);
    let output = Some(text::text_or(tool_state.get_str("output"@), ""@));
    if is_live(status) {
        let started = item_message(
            "item/started"@,
            thread_id,
            tool_items::tool_item(item_id, item_type, tool_name, "in_progress"@, raw_input, None, None, diffs),
        );
        match raw_input {
            Some(input) => {
                let delta = tool_items::delta_text_of(tool_name, input, tool_items::notation_of(input), diffs);
                if delta.len() > 0 {
                    let method = if item_type == "fileChange"@ {
                        "item/fileChange/outputDelta"@
                    } else {
                        "item/commandExecution/outputDelta"@
                    };
                    Seq::empty().push(started).push(
                        message(
                            method,
                            json::obj().and("threadId"@, JsonView::Text(thread_id)).and(
                                "itemId"@,
                                JsonView::Text(item_id),
                            ).and("delta"@, JsonView::Text(delta)),
                        ),
                    )
                } else {
                    Seq::empty().push(started)
                }
            },
            None => Seq::empty().push(started),
        }
    } else if is_over(status) {
        let shown = if status == "completed"@ {
            "completed"@
        } else {
            "failed"@
        };
        Seq::empty().push(
            item_message(
                "item/completed"@,
                thread_id,
                tool_items::tool_item(item_id, item_type, tool_name, shown, raw_input, output, None, diffs),
            ),
        )
    } else {
        Seq::empty()
    }
}

fn build_plain_tool_messages(
    item_id: &str,
    thread_id: &str,
    tool_name: &str,
    status: &str,
    tool_state: &Json,
    diffs: &FileDiffs,
) -> (r: Vec<Json>)
    ensures
        json::json_views(r@) == plain_tool_messages(
            item_id@,
            thread_id@,
            tool_name@,
            status@,
            tool_state@,
            diffs@,
        ),
{
    let item_type: &str = tool_kind_to_item_type(tool_name);
    let raw_input = tool_state.get("input");
    let mut events: Vec<Json> = none();
    if live(status) {
        let item = build_tool_item(item_id, item_type, tool_name, "in_progress", raw_input, None, None, diffs);
        push_json(&mut events, build_item_message("item/started", thread_id, item));
        if let Some(input) = raw_input {
            let delta: String = tool_input_delta_text(tool_name, input, diffs);
            if !delta.as_str().is_empty() {
                let method: &str = if str_eq(item_type, "fileChange") {
                    "item/fileChange/outputDelta"
                } else {
                    "item/commandExecution/outputDelta"
                };
                push_json(
                    &mut events,
                    build_message(
                        method,
                        Json::obj().and("threadId", Json::text(thread_id)).and("itemId", Json::text(item_id)).and(
                            "delta",
                            Json::text(delta.as_str()),
                        ),
                    ),
                );
            }
        }
    } else if over(status) {
        let shown: &str = if str_eq(status, "completed") {
            "completed"
        } else {
            "failed"
        };
        let output: &str = str_or(tool_state.get_str("output"), "");
        let item = build_tool_item(item_id, item_type, tool_name, shown, raw_input, Some(output), None, diffs);
        push_json(&mut events, build_item_message("item/completed", thread_id, item));
    }
    events
}

/// The messages for a tool part whose item has the given identifier.
pub open spec fn tool_messages(
    item_id: Seq<char>,
    thread_id: Seq<char>,
    turn_id: Seq<char>,
    tool_name: Seq<char>,
    status: Seq<char>,
    tool_state: JsonView,
    diffs: DiffsView,
) -> Seq<JsonView> {
    let raw_input = tool_state.get("input"@);
    let title = text::text_or(tool_state.get_str("title"@), ""@);
    if tool_name == "task"@ {
        let method = if is_over(status) {
            "item/completed"@
        } else {
            "item/started"@
        };
        Seq::empty().push(
            item_message(
                method,
                thread_id,
                tool_items::task_item(item_id, task_item_status(status), raw_input, thread_id),
            ),
        )
    } else if tool_name == "todowrite"@ {
        let method = if is_live(status) {
            "item/started"@
        } else {
            "item/completed"@
        };
        let shown = if is_live(status) {
            "pending"@
        } else {
            "completed"@
        };
        let todos = tool_items::todo_list_of(raw_input, tool_state);
        let item = json::obj().and("id"@, JsonView::Text(item_id)).and("type"@, JsonView::Text("todowrite"@)).and(
            "status"@,
            JsonView::Text(shown),
        ).and("todos"@, todos);
        Seq::empty().push(item_message(method, thread_id, item)).push(
            tool_items::plan_event(thread_id, turn_id, todos),
        )
    } else if tool_items::item_type_of(tool_name) == "explore"@ {
        let method = if is_over(status) {
            "item/completed"@
        } else {
            "item/started"@
        };
        let shown = if is_live(status) {
            "exploring"@
        } else {
            "explored"@
        };
        let item = json::obj().and("id"@, JsonView::Text(item_id)).and("type"@, JsonView::Text("explore"@)).and(
            "status"@,
            JsonView::Text(shown),
        ).and("entries"@, JsonView::Array(seq![tool_items::explore_entry(tool_name, title, raw_input)]));
        Seq::empty().push(item_message(method, thread_id, item))
    } else {
        plain_tool_messages(item_id, thread_id, tool_name, status, tool_state, diffs)
    }
}

fn build_tool_messages(
    item_id: &str,
    thread_id: &str,
    turn_id: &str,
    tool_name: &str,
    status: &str,
    tool_state: &Json,
    diffs: &FileDiffs,
) -> (r: Vec<Json>)
    ensures
        json::json_views(r@) == tool_messages(
            item_id@,
            thread_id@,
            turn_id@,
            tool_name@,
            status@,
            tool_state@,
            diffs@,
        ),
{
    let raw_input = tool_state.get("input");
    let title: &str = str_or(tool_state.get_str("title"), "");
    let mut events: Vec<Json> = none();
    if str_eq(tool_name, "task") {
        let shown: &str = if str_eq(status, "completed") {
            "completed"
        } else if str_eq(status, "error") {
            "failed"
        } else {
            "in_progress"
        };
        let method: &str = if over(status) {
            "item/completed"
        } else {
            "item/started"
        };
        let item = build_task_collab_tool_item(item_id, shown, raw_input, thread_id);
        push_json(&mut events, build_item_message(method, thread_id, item));
        events
    } else if str_eq(tool_name, "todowrite") {
        let method: &str = if live(status) {
            "item/started"
        } else {
            "item/completed"
        };
        let shown: &str = if live(status) {
            "pending"
        } else {
            "completed"
        };
        let todos: Json = build_todo_list(raw_input, tool_state);
        let plan: Json = build_plan_update(thread_id, turn_id, &todos);
        let item = Json::obj().and("id", Json::text(item_id)).and("type", Json::text("todowrite")).and(
            "status",
            Json::text(shown),
        ).and("todos", todos);
        push_json(&mut events, build_item_message(method, thread_id, item));
        push_json(&mut events, plan);
        events
    } else if str_eq(tool_kind_to_item_type(tool_name), "explore") {
        let method: &str = if over(status) {
            "item/completed"
        } else {
            "item/started"
        };
        let shown: &str = if live(status) {
            "exploring"
        } else {
            "explored"
        };
        let entries: Vec<Json> = one(build_explore_entry(tool_name, title, raw_input));
        let item = Json::obj().and("id", Json::text(item_id)).and("type", Json::text("explore")).and(
            "status",
            Json::text(shown),
        ).and("entries", Json::array(entries));
        push_json(&mut events, build_item_message(method, thread_id, item));
        events
    } else {
        build_plain_tool_messages(item_id, thread_id, tool_name, status, tool_state, diffs)
    }
}

/// An update of a tool part.
pub open spec fn tool_part(part: JsonView, s: StateView, thread_id: Seq<char>, diffs: DiffsView) -> Outcome {
    match part.get("state"@) {
        Some(tool_state) => {
            let status = text::text_or(tool_state.get_str("status"@), "pending"@);
            let tool_name = text::text_or(part.get_str("tool"@), "unknown"@);
            let part_id = text::text_or(part.get_str("id"@), ""@);
            let turn_id = s.turn(thread_id).turn_id;
            let (s1, item_id) = s.tool_call_item(thread_id, part_id);
            (
                settled(s1, thread_id, status),
                tool_messages(item_id, thread_id, turn_id, tool_name, status, tool_state, diffs),
            )
        },
        None => (s, Seq::empty()),
    }
}

/// Translates an update of a tool part.
pub fn translate_tool_part(
    part: &Json,
    state: &mut SessionTranslationState,
    thread_id: &str,
    diffs: &FileDiffs,
) -> (r: Vec<Json>)
    ensures
        (final(state)@, json::json_views(r@)) == tool_part(part@, old(state)@, thread_id@, diffs@),
{
    let tool_state = match part.get("state") {
        Some(s) => s,
        None => return none(),
    };
    let status: &str = str_or(tool_state.get_str("status"), "pending");
    let tool_name: &str = str_or(part.get_str("tool"), "unknown");
    let part_id: &str = str_or(part.get_str("id"), "");
    let turn_id: String = state.turn_id(thread_id);
    let item_id: String = state.tool_call_item(thread_id, part_id);
    settle(state, thread_id, status);
    build_tool_messages(item_id.as_str(), thread_id, turn_id.as_str(), tool_name, status, tool_state, diffs)
}

// ---------------------------------------------------------------------------
// Messages: roles and token usage
// ---------------------------------------------------------------------------

/// The first of a field of a message and of its model that is there, in four spellings.
pub open spec fn info_field(info: JsonView, camel: Seq<char>, snake: Seq<char>) -> Seq<char> {
    let model = info.get("model"@);
    text::text_or(
        json::as_str_of(
            json::either_of(
                json::either_of(json::either_of(info.get(camel), info.get(snake)), json::get_of(model, camel)),
                json::get_of(model, snake),
            ),
        ),
        ""@,
    )
}

fn find_info_field<'a>(info: &'a Json, camel: &str, snake: &str) -> (r: &'a str)
    ensures
        r@ == info_field(info@, camel@, snake@),
{
    let model = info.get("model");
    str_or(
        as_str_in(
            either(either(either(info.get(camel), info.get(snake)), get_in(model, camel)), get_in(model, snake)),
        ),
        "",
    )
}

/// The tokens of a message by kind.
pub struct TokenUsage {
    pub total: u64,
    pub input: u64,
    pub cached: u64,
    pub output: u64,
    pub reasoning: u64,
}

pub open spec fn count_or_zero(value: Option<JsonView>) -> u64 {
    match count_of(value) {
        Some(n) => n,
        None => 0,
    }
}

fn parse_or_zero(value: Option<&Json>) -> (r: u64)
    ensures
        r == count_or_zero(json::opt_json(value)),
{
    match parse_u64(value) {
        Some(n) => n,
        None => 0,
    }
}

/// The number of input tokens of a message.
pub open spec fn input_tokens(info: JsonView) -> u64 {
    count_or_zero(json::either_of(json::get_of(info.get("tokens"@), "input"@), info.get("inputTokens"@)))
}

/// The number of output tokens of a message.
pub open spec fn output_tokens(info: JsonView) -> u64 {
    count_or_zero(json::either_of(json::get_of(info.get("tokens"@), "output"@), info.get("outputTokens"@)))
}

/// The tokens of a message: the fields of its `tokens`, or else those of the message itself. The
/// total is the sum of input and output where it is not given.
pub open spec fn token_usage(info: JsonView) -> TokenUsage {
    let tokens = info.get("tokens"@);
    TokenUsage {
        total: match count_of(json::get_of(tokens, "total"@)) {
            Some(n) => n,
            None => (input_tokens(info) + output_tokens(info)) as u64,
        },
        input: input_tokens(info),
        cached: count_or_zero(
            json::either_of(
                json::either_of(
                    json::get_of(json::get_of(tokens, "cache"@), "read"@),
                    info.get("cachedInputTokens"@),
                ),
                info.get("cacheReadInputTokens"@),
            ),
        ),
        output: output_tokens(info),
        reasoning: count_or_zero(
            json::either_of(
                json::either_of(json::get_of(tokens, "reasoning"@), info.get("reasoningOutputTokens"@)),
                info.get("reasoningTokens"@),
            ),
        ),
    }
}

fn read_token_usage(info: &Json) -> (r: TokenUsage)
    requires
        input_tokens(info@) + output_tokens(info@) <= u64::MAX,
    ensures
        r == token_usage(info@),
{
    let tokens = info.get("tokens");
    let input: u64 = parse_or_zero(either(get_in(tokens, "input"), info.get("inputTokens")));
    let output: u64 = parse_or_zero(either(get_in(tokens, "output"), info.get("outputTokens")));
    let cached: u64 = parse_or_zero(
        either(
            either(get_in(get_in(tokens, "cache"), "read"), info.get("cachedInputTokens")),
            info.get("cacheReadInputTokens"),
        ),
    );
    let reasoning: u64 = parse_or_zero(
        either(
            either(get_in(tokens, "reasoning"), info.get("reasoningOutputTokens")),
            info.get("reasoningTokens"),
        ),
    );
    let total: u64 = match parse_u64(get_in(tokens, "total")) {
        Some(n) => n,
        None => input + output,
    };
    TokenUsage { total, input, cached, output, reasoning }
}

pub open spec fn number(n: u64) -> JsonView {
    JsonView::Number(NumberView::Unsigned(n))
}

/// The tokens as they are shown.
pub open spec fn usage_object(usage: TokenUsage) -> JsonView {
    json::obj().and("totalTokens"@, number(usage.total)).and("inputTokens"@, number(usage.input)).and(
        "cachedInputTokens"@,
        number(usage.cached),
    ).and("outputTokens"@, number(usage.output)).and("reasoningOutputTokens"@, number(usage.reasoning))
}

fn build_usage_object(usage: &TokenUsage) -> (r: Json)
    ensures
        r@ == usage_object(*usage),
{
    Json::obj().and("totalTokens", Json::number(usage.total)).and("inputTokens", Json::number(usage.input)).and(
        "cachedInputTokens",
        Json::number(usage.cached),
    ).and("outputTokens", Json::number(usage.output)).and("reasoningOutputTokens", Json::number(usage.reasoning))
}

/// The state in which the role of a message is remembered, where the message tells it.
pub open spec fn role_remembered(s: StateView, info: JsonView) -> StateView {
    match (info.get_str("id"@), info.get_str("role"@)) {
        (Some(id), Some(role)) => s.remember_message_role(id, role),
        _ => s,
    }
}

/// An update of a message.
pub open spec fn message_updated(properties: JsonView, s: StateView) -> Outcome {
    match properties.get("info"@) {
        Some(info) => {
            let s1 = role_remembered(entered(s, info.get_str("sessionID"@)), info);
            let usage = token_usage(info);
            let provider_id = info_field(info, "providerID"@, "provider_id"@);
            let model_id = info_field(info, "modelID"@, "model_id"@);
            let window = match s1.model_context_window(provider_id, model_id) {
                Some(n) => n,
                None => 0,
            };
            if usage.total == 0 {
                (s1, Seq::empty())
            } else {
                (
                    s1,
                    seq![
                        message(
                            "thread/tokenUsage/updated"@,
                            json::obj().and("threadId"@, JsonView::Text(s1.session_id)).and(
                                "tokenUsage"@,
                                json::obj().and("total"@, usage_object(usage)).and("last"@, usage_object(usage)).and(
                                    "modelContextWindow"@,
                                    number(window),
                                ),
                            ),
                        )
                    ],
                )
            }
        },
        None => (s, Seq::empty()),
    }
}

/// Whether the sum of input and output tokens of a message can be held.
pub open spec fn message_update_fits(properties: JsonView) -> bool {
    match properties.get("info"@) {
        Some(info) => input_tokens(info) + output_tokens(info) <= u64::MAX,
        None => true,
    }
}

/// Translates an update of a message.
pub fn translate_message_updated(properties: &Json, state: &mut SessionTranslationState) -> (r: Vec<Json>)
    requires
        message_update_fits(properties@),
    ensures
        (final(state)@, json::json_views(r@)) == message_updated(properties@, old(state)@),
{
    let info = match properties.get("info") {
        Some(info) => info,
        None => return none(),
    };
    enter(state, info.get_str("sessionID"));
    if let Some(id) = info.get_str("id") {
        if let Some(role) = info.get_str("role") {
            state.remember_message_role(id, role);
        }
    }
    let provider_id: &str = find_info_field(info, "providerID", "provider_id");
    let model_id: &str = find_info_field(info, "modelID", "model_id");
    let window: u64 = match state.model_context_window(provider_id, model_id) {
        Some(n) => n,
        None => 0,
    };
    let usage: TokenUsage = read_token_usage(info);
    if usage.total == 0 {
        return none();
    }
    one(
        build_message(
            "thread/tokenUsage/updated",
            Json::obj().and("threadId", Json::text(state.session_id.as_str())).and(
                "tokenUsage",
                Json::obj().and("total", build_usage_object(&usage)).and("last", build_usage_object(&usage)).and(
                    "modelContextWindow",
                    Json::number(window),
                ),
            ),
        ),
    )
}

// ---------------------------------------------------------------------------
// Sessions: start, status, end
// ---------------------------------------------------------------------------

/// The record of a session in an event: its `session`, or else the event itself where it has an
/// identifier.
pub open spec fn session_record(properties: JsonView) -> Option<JsonView> {
    match properties.get("session"@) {
        Some(session) => Some(session),
        None => if properties.get("id"@) is Some {
            Some(properties)
        } else {
            None
        },
    }
}

/// The record of a session in an event.
pub fn session_record_from_properties<'a>(properties: &'a Json) -> (r: Option<&'a Json>)
    ensures
        json::opt_json(r) == session_record(properties@),
{
    match properties.get("session") {
        Some(session) => Some(session),
        None => if properties.get("id").is_some() {
            Some(properties)
        } else {
            None
        },
    }
}

/// The identifier in a session's record.
pub open spec fn session_id_of(session: JsonView) -> Seq<char> {
    text::trim_of(
        text::text_or(
            json::as_str_of(
                json::either_of(
                    json::either_of(
                        json::either_of(session.get("id"@), session.get("sessionID"@)),
                        session.get("sessionId"@),
                    ),
                    session.get("session_id"@),
                ),
            ),
            ""@,
        ),
    )
}

/// The identifier in a session's record; empty where there is none.
pub fn session_id_from_record(session: &Json) -> (r: String)
    ensures
        r@ == session_id_of(session@),
{
    trim(
        str_or(
            as_str_in(
                either(
                    either(either(session.get("id"), session.get("sessionID")), session.get("sessionId")),
                    session.get("session_id"),
                ),
            ),
            "",
        ),
    ).to_owned()
}

/// The title in a session's record.
pub open spec fn session_title_of(session: JsonView) -> Seq<char> {
    text::trim_of(
        text::text_or(json::as_str_of(json::either_of(session.get("title"@), session.get("name"@))), ""@),
    )
}

/// The title in a session's record; empty where there is none.
pub fn session_title_from_record(session: &Json) -> (r: String)
    ensures
        r@ == session_title_of(session@),
{
    trim(str_or(as_str_in(either(session.get("title"), session.get("name"))), "")).to_owned()
}

/// The identifier of the parent in a session's record.
pub open spec fn session_parent_of(session: JsonView) -> Option<Seq<char>> {
    text::trimmed_some(
        json::as_str_of(
            json::either_of(
                json::either_of(session.get("parentID"@), session.get("parentId"@)),
                session.get("parent_id"@),
            ),
        ),
    )
}

/// The identifier of the parent in a session's record.
pub fn session_parent_id_from_record(session: &Json) -> (r: Option<String>)
    ensures
        text::opt_string(r) == session_parent_of(session@),
{
    owned(
        trim_some(
            as_str_in(either(either(session.get("parentID"), session.get("parentId")), session.get("parent_id"))),
        ),
    )
}

/// A point in time in a session's record: one of two fields, or else one of three fields of `time`.
pub open spec fn session_time_of(
    session: JsonView,
    camel: Seq<char>,
    snake: Seq<char>,
    short: Seq<char>,
) -> JsonView {
    let time = session.get("time"@);
    json::or_null_of(
        json::either_of(
            json::either_of(
                json::either_of(
                    json::either_of(session.get(camel), session.get(snake)),
                    json::get_of(time, short),
                ),
                json::get_of(time, camel),
            ),
            json::get_of(time, snake),
        ),
    )
}

fn session_time(session: &Json, camel: &str, snake: &str, short: &str) -> (r: Json)
    ensures
        r@ == session_time_of(session@, camel@, snake@, short@),
{
    let time = session.get("time");
    or_null(
        either(
            either(
                either(either(session.get(camel), session.get(snake)), get_in(time, short)),
                get_in(time, camel),
            ),
            get_in(time, snake),
        ),
    )
}

/// When a session was changed last.
pub open spec fn session_updated_at_of(session: JsonView) -> JsonView {
    session_time_of(session, "updatedAt"@, "updated_at"@, "updated"@)
}

/// When a session was made.
pub open spec fn session_created_at_of(session: JsonView) -> JsonView {
    session_time_of(session, "createdAt"@, "created_at"@, "created"@)
}

/// When a session was changed last; null where its record does not tell.
pub fn session_updated_at_from_record(session: &Json) -> (r: Json)
    ensures
        r@ == session_updated_at_of(session@),
{
    session_time(session, "updatedAt", "updated_at", "updated")
}

/// When a session was made; null where its record does not tell.
pub fn session_created_at_from_record(session: &Json) -> (r: Json)
    ensures
        r@ == session_created_at_of(session@),
{
    session_time(session, "createdAt", "created_at", "created")
}

/// A session as the thread that shows it.
pub open spec fn session_thread(session: JsonView) -> JsonView {
    let thread = json::obj().and("id"@, JsonView::Text(session_id_of(session))).and(
        "preview"@,
        JsonView::Text(session_title_of(session)),
    ).and("updatedAt"@, session_updated_at_of(session)).and("createdAt"@, session_created_at_of(session));
    match session_parent_of(session) {
        Some(parent) => thread.with("parentId"@, JsonView::Text(parent)),
        None => thread,
    }
}

/// A session that was made or changed.
pub open spec fn session_changed(properties: JsonView, s: StateView, emit_thread_started: bool) -> Outcome {
    match session_record(properties) {
        Some(session) => {
            let thread_id = session_id_of(session);
            let title = session_title_of(session);
            if thread_id.len() == 0 {
                (s, Seq::empty())
            } else {
                let started = if emit_thread_started {
                    Seq::empty().push(
                        message("thread/started"@, json::obj().and("thread"@, session_thread(session))),
                    )
                } else {
                    Seq::empty()
                };
                let events = if title.len() > 0 {
                    started.push(
                        message(
                            "thread/name/updated"@,
                            json::obj().and("threadId"@, JsonView::Text(thread_id)).and(
                                "threadName"@,
                                JsonView::Text(title),
                            ),
                        ),
                    )
                } else {
                    started
                };
                (s.with_session(thread_id), events)
            }
        },
        None => (s, Seq::empty()),
    }
}

/// Translates the news that a session was made or changed.
pub fn translate_session_created_or_updated(
    properties: &Json,
    state: &mut SessionTranslationState,
    emit_thread_started: bool,
) -> (r: Vec<Json>)
    ensures
        (final(state)@, json::json_views(r@)) == session_changed(properties@, old(state)@, emit_thread_started),
{
    let session = match session_record_from_properties(properties) {
        Some(session) => session,
        None => return none(),
    };
    let thread_id: String = session_id_from_record(session);
    if thread_id.as_str().is_empty() {
        return none();
    }
    state.session_id = thread_id.clone();
    let title: String = session_title_from_record(session);
    let mut events: Vec<Json> = none();
    if emit_thread_started {
        let thread = Json::obj().and("id", Json::text(thread_id.as_str())).and(
            "preview",
            Json::text(title.as_str()),
        ).and("updatedAt", session_updated_at_from_record(session)).and(
            "createdAt",
            session_created_at_from_record(session),
        );
        let thread = match session_parent_id_from_record(session) {
            Some(parent) => thread.with("parentId", Json::text(parent.as_str())),
            None => thread,
        };
        push_json(&mut events, build_message("thread/started", Json::obj().and("thread", thread)));
    }
    if !title.as_str().is_empty() {
        push_json(
            &mut events,
            build_message(
                "thread/name/updated",
                Json::obj().and("threadId", Json::text(thread_id.as_str())).and(
                    "threadName",
                    Json::text(title.as_str()),
                ),
            ),
        );
    }
    events
}

/// The session that a status event names.
pub open spec fn status_session(properties: JsonView) -> Option<Seq<char>> {
    json::as_str_of(
        json::either_of(
            json::either_of(properties.get("sessionID"@), properties.get("session_id"@)),
            properties.get("id"@),
        ),
    )
}

fn find_status_session<'a>(properties: &'a Json) -> (r: Option<&'a str>)
    ensures
        text::opt_text(r) == status_session(properties@),
{
    as_str_in(either(either(properties.get("sessionID"), properties.get("session_id")), properties.get("id")))
}

/// A session that has become idle: its agent message is complete and its turn is over. The end of
/// the turn is told even where no turn was started.
pub open spec fn went_idle(s: StateView) -> Outcome {
    let thread_id = s.session_id;
    let over = message("turn/completed"@, turn_params(thread_id, s.turn(thread_id).turn_id));
    (
        s.finish_turn(thread_id),
        match agent_message_completed(s, thread_id) {
            Some(m) => Seq::empty().push(m).push(over),
            None => Seq::empty().push(over),
        },
    )
}

fn translate_idle(state: &mut SessionTranslationState) -> (r: Vec<Json>)
    ensures
        (final(state)@, json::json_views(r@)) == went_idle(old(state)@),
{
    let thread_id: String = state.session_id.clone();
    let turn_id: String = state.turn_id(thread_id.as_str());
    let mut events: Vec<Json> = none();
    if let Some(m) = build_agent_message_completed(state, thread_id.as_str()) {
        push_json(&mut events, m);
    }
    push_json(&mut events, build_turn_completed(thread_id.as_str(), turn_id.as_str()));
    state.finish_turn(thread_id.as_str());
    events
}

/// The status of a session.
pub open spec fn session_status(properties: JsonView, s: StateView) -> Outcome {
    let s1 = entered(s, status_session(properties));
    let thread_id = s1.session_id;
    let turn_id = s1.turn(thread_id).turn_id;
    let status = text::text_or(json::as_str_of(json::get_of(properties.get("status"@), "type"@)), ""@);
    if status == "active"@ || status == "running"@ || status == "busy"@ {
        if thread_id.len() == 0 || turn_id.len() > 0 {
            (s1, Seq::empty())
        } else {
            let id = session_state::synthetic_turn_id(s1.item_counter);
            (
                s1.counted().start_turn(thread_id, id),
                seq![message("turn/started"@, turn_params(thread_id, id))],
            )
        }
    } else if status == "idle"@ {
        if thread_id.len() == 0 {
            (s1, Seq::empty())
        } else {
            went_idle(s1)
        }
    } else if status == "error"@ {
        let error = text::text_or(
            json::as_str_of(json::get_of(properties.get("status"@), "message"@)),
            "unknown error"@,
        );
        (s1.finish_turn(thread_id), seq![error_message(thread_id, turn_id, error)])
    } else {
        (s1, Seq::empty())
    }
}

/// Translates the status of a session.
pub fn translate_session_status(properties: &Json, state: &mut SessionTranslationState) -> (r: Vec<Json>)
    ensures
        (final(state)@, json::json_views(r@)) == session_status(properties@, old(state)@),
{
    enter(state, find_status_session(properties));
    let status: &str = str_or(as_str_in(get_in(properties.get("status"), "type")), "");
    let thread_id: String = state.session_id.clone();
    let turn_id: String = state.turn_id(thread_id.as_str());
    if str_eq(status, "active") || str_eq(status, "running") || str_eq(status, "busy") {
        if thread_id.as_str().is_empty() || !turn_id.as_str().is_empty() {
            return none();
        }
        let id: String = state.next_turn_id();
        state.start_turn(thread_id.clone(), id.clone());
        one(build_turn_started(thread_id.as_str(), id.as_str()))
    } else if str_eq(status, "idle") {
        if thread_id.as_str().is_empty() {
            return none();
        }
        translate_idle(state)
    } else if str_eq(status, "error") {
        let error: &str = str_or(as_str_in(get_in(properties.get("status"), "message")), "unknown error");
        state.finish_turn(thread_id.as_str());
        one(build_error_message(thread_id.as_str(), turn_id.as_str(), error))
    } else {
        none()
    }
}

/// The news that a session has become idle.
pub open spec fn session_idle(properties: JsonView, s: StateView) -> Outcome {
    let s1 = entered(s, status_session(properties));
    if s1.session_id.len() == 0 {
        (s1, Seq::empty())
    } else {
        went_idle(s1)
    }
}

/// Translates the news that a session has become idle.
pub fn translate_session_idle(properties: &Json, state: &mut SessionTranslationState) -> (r: Vec<Json>)
    ensures
        (final(state)@, json::json_views(r@)) == session_idle(properties@, old(state)@),
{
    enter(state, find_status_session(properties));
    if state.session_id.as_str().is_empty() {
        return none();
    }
    translate_idle(state)
}

/// The text of an error: the message of its data, or else one of three of its own fields.
pub open spec fn error_text(error: JsonView) -> Seq<char> {
    text::text_or(
        json::as_str_of(
            json::either_of(
                json::either_of(
                    json::either_of(json::get_of(error.get("data"@), "message"@), error.get("message"@)),
                    error.get("error"@),
                ),
                error.get("name"@),
            ),
        ),
        "unknown error"@,
    )
}

/// An error of a session.
pub open spec fn session_error(properties: JsonView, s: StateView) -> Outcome {
    let s1 = entered(s, status_session(properties));
    let thread_id = s1.session_id;
    if thread_id.len() == 0 {
        (s1, Seq::empty())
    } else {
        let error = error_text(json::or_null_of(properties.get("error"@)));
        (
            s1.finish_turn(thread_id),
            seq![error_message(thread_id, s1.turn(thread_id).turn_id, error)],
        )
    }
}

/// Translates an error of a session.
pub fn translate_session_error(properties: &Json, state: &mut SessionTranslationState) -> (r: Vec<Json>)
    ensures
        (final(state)@, json::json_views(r@)) == session_error(properties@, old(state)@),
{
    enter(state, find_status_session(properties));
    let thread_id: String = state.session_id.clone();
    if thread_id.as_str().is_empty() {
        return none();
    }
    let turn_id: String = state.turn_id(thread_id.as_str());
    let error = or_null(properties.get("error"));
    let error_msg: &str = str_or(
        as_str_in(
            either(
                either(
                    either(get_in(error.get("data"), "message"), error.get("message")),
                    error.get("error"),
                ),
                error.get("name"),
            ),
        ),
        "unknown error",
    );
    state.finish_turn(thread_id.as_str());
    one(build_error_message(thread_id.as_str(), turn_id.as_str(), error_msg))
}

// ---------------------------------------------------------------------------
// Requests to the user
// ---------------------------------------------------------------------------

/// The strings of a list.
pub open spec fn strings_of(items: Seq<JsonView>) -> Seq<Seq<char>>
    decreases items.len(),
{
    if items.len() == 0 {
        Seq::empty()
    } else {
        match items.last().as_str() {
            Some(s) => strings_of(items.drop_last()).push(s),
            None => strings_of(items.drop_last()),
        }
    }
}

/// The strings of a list.
pub fn collect_strings(items: &Vec<Json>) -> (r: Vec<String>)
    ensures
        text::texts(r@) == strings_of(json::json_views(items@)),
{
    let mut out: Vec<String> = Vec::new();
    let mut i: usize = 0;
    let ghost all = json::json_views(items@);
    assert(text::texts(out@) =~= strings_of(all.take(0)));
    while i < items.len()
        invariant
            i <= items@.len(),
            all == json::json_views(items@),
            text::texts(out@) == strings_of(all.take(i as int)),
        decreases items@.len() - i,
    {
        proof {
            assert(all.take(i + 1).drop_last() =~= all.take(i as int));
            assert(all.take(i + 1).last() == items@[i as int]@);
        }
        if let Some(s) = items[i].as_str() {
            let ghost before = text::texts(out@);
            out.push(s.to_owned());
            assert(text::texts(out@) =~= before.push(s@));
        }
        i = i + 1;
    }
    assert(all.take(all.len() as int) =~= all);
    out
}

/// The identifier under which an answer finds its way back: the session and what it asked.
pub open spec fn composite_id(session_id: Seq<char>, id: Seq<char>) -> Seq<char> {
    session_id + ":"@ + id
}

/// What a permission is asked for: its patterns, or else its kind.
pub open spec fn permission_label(patterns: Option<JsonView>, kind: Seq<char>) -> Seq<char> {
    match patterns {
        Some(JsonView::Array(items)) => text::joined(strings_of(items), ", "@),
        Some(other) => text::text_or(other.as_str(), kind),
        None => kind,
    }
}

/// The request for a permission.
pub open spec fn permission_asked(properties: JsonView, s: StateView) -> Seq<JsonView> {
    let kind = text::text_or(properties.get_str("permission"@), "command"@);
    let session_id = text::text_or(properties.get_str("sessionID"@), s.session_id);
    let id = composite_id(session_id, text::text_or(properties.get_str("id"@), ""@));
    seq![
        json::obj().and("id"@, JsonView::Text(id)).and("method"@, JsonView::Text("codex/requestApproval"@)).and(
            "params"@,
            json::obj().and("permission"@, JsonView::Text(kind)).and(
                "command"@,
                JsonView::Array(seq![JsonView::Text(permission_label(properties.get("patterns"@), kind))]),
            ),
        )
    ]
}

/// Translates the request for a permission.
pub fn translate_sse_permission(properties: &Json, state: &SessionTranslationState) -> (r: Vec<Json>)
    ensures
        json::json_views(r@) == permission_asked(properties@, state@),
{
    let id: &str = str_or(properties.get_str("id"), "");
    let session_id: &str = str_or(properties.get_str("sessionID"), state.session_id.as_str());
    let kind: &str = str_or(properties.get_str("permission"), "command");
    let label: String = match properties.get("patterns") {
        Some(Json::Array(items)) => join(&collect_strings(items), ", "),
        Some(other) => str_or(other.as_str(), kind).to_owned(),
        None => kind.to_owned(),
    };
    one(
        Json::obj().and("id", Json::text(cat3(session_id, ":", id).as_str())).and(
            "method",
            Json::text("codex/requestApproval"),
        ).and(
            "params",
            Json::obj().and("permission", Json::text(kind)).and(
                "command",
                Json::array(one(Json::text(label.as_str()))),
            ),
        ),
    )
}

/// The server's word for a decision on a permission: anything but an acceptance is a rejection.
pub open spec fn permission_reply(decision: Seq<char>) -> Seq<char> {
    if decision == "accept"@ {
        "once"@
    } else if decision == "always"@ {
        "always"@
    } else {
        "reject"@
    }
}

/// The body that answers a request for a permission.
pub open spec fn permission_response(decision: Seq<char>) -> JsonView {
    json::obj().and("reply"@, JsonView::Text(permission_reply(decision)))
}

/// The body that answers a request for a permission.
pub fn build_permission_response(decision: &str) -> (r: Json)
    ensures
        r@ == permission_response(decision@),
{
    let reply: &str = if str_eq(decision, "accept") {
        "once"
    } else if str_eq(decision, "always") {
        "always"
    } else {
        "reject"
    };
    Json::obj().and("reply", Json::text(reply))
}

/// An option of a question.
pub open spec fn option_entry(option: JsonView) -> JsonView {
    json::obj().and("label"@, JsonView::Text(text::text_or(option.get_str("label"@), ""@))).and(
        "description"@,
        JsonView::Text(text::text_or(option.get_str("description"@), ""@)),
    )
}

/// The options of a question.
pub open spec fn option_entries(options: Seq<JsonView>) -> Seq<JsonView> {
    Seq::new(options.len(), |i: int| option_entry(options[i]))
}

fn build_option_entries(options: &Vec<Json>) -> (r: Vec<Json>)
    ensures
        json::json_views(r@) == option_entries(json::json_views(options@)),
{
    let mut out: Vec<Json> = Vec::new();
    let mut i: usize = 0;
    let ghost all = json::json_views(options@);
    while i < options.len()
        invariant
            i <= options@.len(),
            out@.len() == i,
            all == json::json_views(options@),
            forall|k: int| 0 <= k < i ==> (#[trigger] out@[k])@ == option_entry(all[k]),
        decreases options@.len() - i,
    {
        let option = &options[i];
        out.push(
            Json::obj().and("label", Json::text(str_or(option.get_str("label"), ""))).and(
                "description",
                Json::text(str_or(option.get_str("description"), "")),
            ),
        );
        assert(out@[i as int]@ == option_entry(all[i as int]));
        i = i + 1;
    }
    assert(json::json_views(out@) =~= option_entries(all));
    out
}

/// The items of a list, or none where it is no list.
pub open spec fn items_of(o: Option<JsonView>) -> Seq<JsonView> {
    match json::as_array_of(o) {
        Some(items) => items,
        None => Seq::empty(),
    }
}

/// A question, numbered by its place. A free answer is allowed unless the question says otherwise.
pub open spec fn question_entry(i: int, question: JsonView) -> JsonView {
    let custom = match question.get("custom"@) {
        Some(JsonView::Bool(b)) => b,
        _ => true,
    };
    json::obj().and("id"@, JsonView::Text(text::decimal(i as nat))).and(
        "header"@,
        JsonView::Text(text::text_or(question.get_str("header"@), ""@)),
    ).and("question"@, JsonView::Text(text::text_or(question.get_str("question"@), ""@))).and(
        "isOther"@,
        JsonView::Bool(custom),
    ).and("options"@, JsonView::Array(option_entries(items_of(question.get("options"@)))))
}

/// Questions, numbered by their places.
pub open spec fn question_entries(questions: Seq<JsonView>) -> Seq<JsonView> {
    Seq::new(questions.len(), |i: int| question_entry(i, questions[i]))
}

fn build_question_entries(questions: &Vec<Json>) -> (r: Vec<Json>)
    ensures
        json::json_views(r@) == question_entries(json::json_views(questions@)),
{
    let mut out: Vec<Json> = Vec::new();
    let mut i: usize = 0;
    let ghost all = json::json_views(questions@);
    while i < questions.len()
        invariant
            i <= questions@.len(),
            out@.len() == i,
            all == json::json_views(questions@),
            forall|k: int| 0 <= k < i ==> (#[trigger] out@[k])@ == question_entry(k, all[k]),
        decreases questions@.len() - i,
    {
        let question = &questions[i];
        let custom: bool = match question.get("custom") {
            Some(Json::Bool(b)) => *b,
            _ => true,
        };
        let options: Vec<Json> = match as_array_in(question.get("options")) {
            Some(options) => build_option_entries(options),
            None => none(),
        };
        assert(json::json_views(options@) =~= option_entries(items_of(all[i as int].get("options"@))));
        out.push(
            Json::obj().and("id", Json::text(decimal_text(i as u64).as_str())).and(
                "header",
                Json::text(str_or(question.get_str("header"), "")),
            ).and("question", Json::text(str_or(question.get_str("question"), ""))).and(
                "isOther",
                Json::Bool(custom),
            ).and("options", Json::array(options)),
        );
        assert(out@[i as int]@ == question_entry(i as int, all[i as int]));
        i = i + 1;
    }
    assert(json::json_views(out@) =~= question_entries(all));
    out
}

/// Questions to the user.
pub open spec fn question_asked(properties: JsonView, s: StateView) -> Outcome {
    let question_id = text::text_or(properties.get_str("id"@), ""@);
    let session_id = text::text_or(properties.get_str("sessionID"@), s.session_id);
    if question_id.len() == 0 {
        (s, Seq::empty())
    } else {
        let s1 = entered(s, Some(session_id));
        let thread_id = s1.session_id;
        (
            s1.counted(),
            seq![
                json::obj().and("id"@, JsonView::Text(composite_id(session_id, question_id))).and(
                    "method"@,
                    JsonView::Text("item/tool/requestUserInput"@),
                ).and(
                    "params"@,
                    json::obj().and("threadId"@, JsonView::Text(thread_id)).and(
                        "turnId"@,
                        JsonView::Text(s1.turn(thread_id).turn_id),
                    ).and("itemId"@, JsonView::Text(session_state::item_id(s1.item_counter))).and(
                        "questions"@,
                        JsonView::Array(question_entries(items_of(properties.get("questions"@)))),
                    ),
                )
            ],
        )
    }
}

/// Translates questions to the user.
pub fn translate_question_asked(properties: &Json, state: &mut SessionTranslationState) -> (r: Vec<Json>)
    ensures
        (final(state)@, json::json_views(r@)) == question_asked(properties@, old(state)@),
{
    let question_id: &str = str_or(properties.get_str("id"), "");
    let session_id: String = str_or(properties.get_str("sessionID"), state.session_id.as_str()).to_owned();
    if question_id.is_empty() {
        return none();
    }
    enter(state, Some(session_id.as_str()));
    let thread_id: String = state.session_id.clone();
    let turn_id: String = state.turn_id(thread_id.as_str());
    let item_id: String = state.next_item_id();
    let questions: Vec<Json> = match as_array_in(properties.get("questions")) {
        Some(questions) => build_question_entries(questions),
        None => none(),
    };
    assert(json::json_views(questions@) =~= question_entries(items_of(properties@.get("questions"@))));
    one(
        Json::obj().and("id", Json::text(cat3(session_id.as_str(), ":", question_id).as_str())).and(
            "method",
            Json::text("item/tool/requestUserInput"),
        ).and(
            "params",
            Json::obj().and("threadId", Json::text(thread_id.as_str())).and(
                "turnId",
                Json::text(turn_id.as_str()),
            ).and("itemId", Json::text(item_id.as_str())).and("questions", Json::array(questions)),
        ),
    )
}

/// The news that questions were answered or rejected.
pub open spec fn question_completed(properties: JsonView) -> Seq<JsonView> {
    let session_id = text::text_or(properties.get_str("sessionID"@), ""@);
    let request_id = text::text_or(properties.get_str("requestID"@), ""@);
    if request_id.len() == 0 {
        Seq::empty()
    } else {
        seq![
            message(
                "item/tool/userInputCompleted"@,
                json::obj().and("requestId"@, JsonView::Text(composite_id(session_id, request_id))).and(
                    "workspaceId"@,
                    JsonView::Text(session_id),
                ),
            )
        ]
    }
}

/// Translates the news that questions were answered or rejected.
pub fn translate_question_completed(properties: &Json) -> (r: Vec<Json>)
    ensures
        json::json_views(r@) == question_completed(properties@),
{
    let session_id: &str = str_or(properties.get_str("sessionID"), "");
    let request_id: &str = str_or(properties.get_str("requestID"), "");
    if request_id.is_empty() {
        return none();
    }
    one(
        build_message(
            "item/tool/userInputCompleted",
            Json::obj().and("requestId", Json::text(cat3(session_id, ":", request_id).as_str())).and(
                "workspaceId",
                Json::text(session_id),
            ),
        ),
    )
}

/// A changed todo list.
pub open spec fn todo_updated(properties: JsonView, s: StateView) -> Seq<JsonView> {
    let named = text::text_or(
        json::as_str_of(json::either_of(properties.get("sessionID"@), properties.get("sessionId"@))),
        s.session_id,
    );
    let thread_id = if named.len() == 0 {
        s.session_id
    } else {
        named
    };
    let todos = match properties.get("todos"@) {
        Some(todos) => todos,
        None => JsonView::Array(Seq::empty()),
    };
    seq![tool_items::plan_event(thread_id, s.turn(thread_id).turn_id, todos)]
}

/// Translates a changed todo list.
pub fn translate_todo_updated(properties: &Json, state: &SessionTranslationState) -> (r: Vec<Json>)
    ensures
        json::json_views(r@) == todo_updated(properties@, state@),
{
    let named: &str = str_or(
        as_str_in(either(properties.get("sessionID"), properties.get("sessionId"))),
        state.session_id.as_str(),
    );
    let thread_id: &str = if named.is_empty() {
        state.session_id.as_str()
    } else {
        named
    };
    let turn_id: String = state.turn_id(thread_id);
    let todos: Json = match properties.get("todos") {
        Some(todos) => todos.clone(),
        None => Json::array(none()),
    };
    one(build_plan_update(thread_id, turn_id.as_str(), &todos))
}

// ---------------------------------------------------------------------------
// All events
// ---------------------------------------------------------------------------

/// The properties of an event.
pub open spec fn properties_of(event: JsonView) -> JsonView {
    json::or_null_of(event.get("properties"@))
}

/// What an event of the server does. Events of other types do nothing.
pub open spec fn sse_event(event: JsonView, s: StateView, diffs: DiffsView) -> Outcome {
    let p = properties_of(event);
    match event.get_str("type"@) {
        Some(kind) => if kind == "message.part.updated"@ {
            part_updated(p, s, diffs)
        } else if kind == "message.part.removed"@ {
            part_removed(p, s)
        } else if kind == "message.part.delta"@ {
            part_delta(p, s)
        } else if kind == "message.updated"@ {
            message_updated(p, s)
        } else if kind == "session.created"@ || kind == "session.updated"@ {
            session_changed(p, s, true)
        } else if kind == "session.status"@ {
            session_status(p, s)
        } else if kind == "session.idle"@ {
            session_idle(p, s)
        } else if kind == "session.error"@ {
            session_error(p, s)
        } else if kind == "permission.asked"@ {
            (s, permission_asked(p, s))
        } else if kind == "question.asked"@ {
            question_asked(p, s)
        } else if kind == "question.replied"@ || kind == "question.rejected"@ {
            (s, question_completed(p))
        } else if kind == "todo.updated"@ {
            (s, todo_updated(p, s))
        } else {
            (s, Seq::empty())
        },
        None => (s, Seq::empty()),
    }
}

/// Whether all counts that an event leads to can be held.
pub open spec fn event_fits(event: JsonView, s: StateView) -> bool {
    let p = properties_of(event);
    match event.get_str("type"@) {
        Some(kind) => {
            &&& kind == "message.part.updated"@ ==> part_update_fits(p, s)
            &&& kind == "message.part.delta"@ ==> part_delta_fits(p, s)
            &&& kind == "message.updated"@ ==> message_update_fits(p)
        },
        None => true,
    }
}

/// Translates an event of the server, given what the diff generator made of its tool input.
/// Events that the thread view does not need give no message.
pub fn translate_sse_event(
    sse_event: &Json,
    state: &mut SessionTranslationState,
    diffs: &FileDiffs,
) -> (r: Vec<Json>)
    requires
        event_fits(sse_event@, old(state)@),
    ensures
        (final(state)@, json::json_views(r@)) == self::sse_event(sse_event@, old(state)@, diffs@),
{
    let kind: &str = match sse_event.get_str("type") {
        Some(kind) => kind,
        None => return none(),
    };
    let p: Json = or_null(sse_event.get("properties"));
    if str_eq(kind, "message.part.updated") {
        translate_part_updated(&p, state, diffs)
    } else if str_eq(kind, "message.part.removed") {
        translate_part_removed(&p, state)
    } else if str_eq(kind, "message.part.delta") {
        translate_part_delta(&p, state)
    } else if str_eq(kind, "message.updated") {
        translate_message_updated(&p, state)
    } else if str_eq(kind, "session.created") || str_eq(kind, "session.updated") {
        translate_session_created_or_updated(&p, state, true)
    } else if str_eq(kind, "session.status") {
        translate_session_status(&p, state)
    } else if str_eq(kind, "session.idle") {
        translate_session_idle(&p, state)
    } else if str_eq(kind, "session.error") {
        translate_session_error(&p, state)
    } else if str_eq(kind, "permission.asked") {
        translate_sse_permission(&p, state)
    } else if str_eq(kind, "question.asked") {
        translate_question_asked(&p, state)
    } else if str_eq(kind, "question.replied") || str_eq(kind, "question.rejected") {
        translate_question_completed(&p)
    } else if str_eq(kind, "todo.updated") {
        translate_todo_updated(&p, state)
    } else {
        none()
    }
}

// ---------------------------------------------------------------------------
// Before an event is translated
// ---------------------------------------------------------------------------

fn part_update_can_be_counted(properties: &Json, state: &SessionTranslationState) -> (r: bool)
    ensures
        r == part_update_fits(properties@, state@),
{
    let part = match properties.get("part") {
        Some(part) => part,
        None => return true,
    };
    let delta: &str = str_or(properties.get_str("delta"), "");
    let kind: &str = str_or(part.get_str("type"), "");
    let message_id: &str = str_or(as_str_in(either(part.get("messageID"), part.get("messageId"))), "");
    if delta.is_empty() || state.is_user_message_id(message_id) {
        return true;
    }
    let thread_id: &str = match part.get_str("sessionID") {
        Some(id) => if id.is_empty() {
            state.session_id.as_str()
        } else {
            id
        },
        None => state.session_id.as_str(),
    };
    let part_id: Option<&str> = part.get_str("id");
    let added: usize = byte_len(delta);
    let turn = match state.get_turn_state(thread_id) {
        Some(turn) => turn,
        None => return true,
    };
    if str_eq(kind, "text") {
        let emitted_len: usize = match part_id {
            Some(id) => if is_text(&turn.agent_message_part_id, id) {
                turn.agent_message_text_len
            } else {
                0
            },
            None => turn.agent_message_text_len,
        };
        added <= usize::MAX - emitted_len
    } else if str_eq(kind, "reasoning") {
        let emitted_len: usize = match part_id {
            Some(id) => if is_text(&turn.reasoning_part_id, id) {
                turn.reasoning_text_len
            } else {
                0
            },
            None => turn.reasoning_text_len,
        };
        added <= usize::MAX - emitted_len
    } else {
        true
    }
}

fn part_delta_can_be_counted(properties: &Json, state: &SessionTranslationState) -> (r: bool)
    ensures
        r == part_delta_fits(properties@, state@),
{
    let delta: &str = str_or(properties.get_str("delta"), "");
    let field: &str = str_or(properties.get_str("field"), "text");
    let part_id: &str = str_or(properties.get_str("partID"), "");
    let message_id: &str = str_or(as_str_in(either(properties.get("messageID"), properties.get("messageId"))), "");
    if delta.is_empty() || !str_eq(field, "text") || state.is_user_message_id(message_id) {
        return true;
    }
    let thread_id: &str = match properties.get_str("sessionID") {
        Some(id) => if id.is_empty() {
            state.session_id.as_str()
        } else {
            id
        },
        None => state.session_id.as_str(),
    };
    let added: usize = byte_len(delta);
    match state.get_turn_state(thread_id) {
        Some(turn) => if is_text(&turn.reasoning_part_id, part_id) {
            added <= usize::MAX - turn.reasoning_text_len
        } else if part_id.is_empty() || is_text(&turn.agent_message_part_id, part_id) {
            added <= usize::MAX - turn.agent_message_text_len
        } else {
            true
        },
        None => true,
    }
}

/// Whether the sum of input and output tokens of a message can be held.
pub fn message_update_can_be_counted(properties: &Json) -> (r: bool)
    ensures
        r == message_update_fits(properties@),
{
    match properties.get("info") {
        Some(info) => {
            let tokens = info.get("tokens");
            let input: u64 = parse_or_zero(either(get_in(tokens, "input"), info.get("inputTokens")));
            let output: u64 = parse_or_zero(either(get_in(tokens, "output"), info.get("outputTokens")));
            output <= u64::MAX - input
        },
        None => true,
    }
}

/// Whether all counts that an event leads to can be held.
pub fn can_translate(sse_event: &Json, state: &SessionTranslationState) -> (r: bool)
    ensures
        r == event_fits(sse_event@, state@),
{
    let kind: &str = match sse_event.get_str("type") {
        Some(kind) => kind,
        None => return true,
    };
    let p: Json = or_null(sse_event.get("properties"));
    if str_eq(kind, "message.part.updated") && !part_update_can_be_counted(&p, state) {
        return false;
    }
    if str_eq(kind, "message.part.delta") && !part_delta_can_be_counted(&p, state) {
        return false;
    }
    if str_eq(kind, "message.updated") && !message_update_can_be_counted(&p) {
        return false;
    }
    true
}

/// The input of the tool whose part an event updates: what the diff generator is to be asked about.
pub open spec fn tool_input_of(event: JsonView) -> Option<JsonView> {
    if event.get_str("type"@) == Some("message.part.updated"@) {
        json::get_of(json::get_of(json::get_of(event.get("properties"@), "part"@), "state"@), "input"@)
    } else {
        None
    }
}

/// The input of the tool whose part an event updates.
pub fn event_tool_input<'a>(sse_event: &'a Json) -> (r: Option<&'a Json>)
    ensures
        json::opt_json(r) == tool_input_of(sse_event@),
{
    let is_update: bool = match sse_event.get_str("type") {
        Some(kind) => str_eq(kind, "message.part.updated"),
        None => false,
    };
    if is_update {
        get_in(get_in(get_in(sse_event.get("properties"), "part"), "state"), "input")
    } else {
        None
    }
}

} // verus!
