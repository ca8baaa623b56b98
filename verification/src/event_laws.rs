//! What the events of the server come to: which session they are about, and what the messages for
//! them show.

use vstd::prelude::*;

use crate::event_translator;
use crate::json;
use crate::json::{JsonView, NumberView};
use crate::reading;
use crate::session_state;
use crate::session_state::StateView;
use crate::text;
use crate::tool_items;
use crate::tool_items::DiffsView;


verus! {

/// Whether an event is of a kind and has the given properties.
pub open spec fn is_event(event: JsonView, kind: Seq<char>, p: JsonView) -> bool {
    event.get("type"@) == reading::found(kind) && event.get("properties"@) == Some(p)
}

/// The session that a value names, or else the one that is active.
pub open spec fn named_session(o: Option<JsonView>, active: Seq<char>) -> Seq<char> {
    match o {
        Some(JsonView::Text(id)) => if id.len() > 0 {
            id
        } else {
            active
        },
        _ => active,
    }
}

/// Whether all messages are about a thread.
pub open spec fn all_about(messages: Seq<JsonView>, thread_id: Seq<char>) -> bool {
    forall|i: int|
        0 <= i < messages.len() ==> reading::param(#[trigger] messages[i], "threadId"@) == reading::found(thread_id)
}

proof fn lemma_kinds()
    ensures
        "message.part.delta"@.len() == 18,
        "message.part.removed"@.len() == 20,
        "message.part.removed"@[13] == 'r',
        "message.part.updated"@.len() == 20,
        "message.part.updated"@[13] == 'u',
        "message.updated"@.len() == 15,
        "message.updated"@[0] == 'm',
        "permission.asked"@.len() == 16,
        "permission.asked"@[0] == 'p',
        "question.asked"@.len() == 14,
        "question.asked"@[0] == 'q',
        "question.rejected"@.len() == 17,
        "question.replied"@.len() == 16,
        "question.replied"@[0] == 'q',
        "session.created"@.len() == 15,
        "session.created"@[0] == 's',
        "session.created"@[8] == 'c',
        "session.error"@.len() == 13,
        "session.idle"@.len() == 12,
        "session.idle"@[0] == 's',
        "session.status"@.len() == 14,
        "session.status"@[0] == 's',
        "session.updated"@.len() == 15,
        "session.updated"@[0] == 's',
        "session.updated"@[8] == 'u',
        "todo.updated"@.len() == 12,
        "todo.updated"@[0] == 't',
{
    reveal_strlit("message.part.delta");
    reveal_strlit("message.part.removed");
    reveal_strlit("message.part.updated");
    reveal_strlit("message.updated");
    reveal_strlit("permission.asked");
    reveal_strlit("question.asked");
    reveal_strlit("question.rejected");
    reveal_strlit("question.replied");
    reveal_strlit("session.created");
    reveal_strlit("session.error");
    reveal_strlit("session.idle");
    reveal_strlit("session.status");
    reveal_strlit("session.updated");
    reveal_strlit("todo.updated");
}

proof fn lemma_event_names()
    ensures
        ""@.len() == 0,
        "command"@.len() == 7,
        "command"@[0] == 'c',
        "command"@[2] == 'm',
        "content"@.len() == 7,
        "content"@[0] == 'c',
        "content"@[2] == 'n',
        "delta"@.len() == 5,
        "delta"@[0] == 'd',
        "error"@.len() == 5,
        "error"@[0] == 'e',
        "explanation"@.len() == 11,
        "explanation"@[0] == 'e',
        "id"@.len() == 2,
        "info"@.len() == 4,
        "info"@[0] == 'i',
        "info"@[1] == 'n',
        "item"@.len() == 4,
        "item"@[0] == 'i',
        "item"@[1] == 't',
        "itemId"@.len() == 6,
        "itemId"@[0] == 'i',
        "last"@.len() == 4,
        "last"@[0] == 'l',
        "message"@.len() == 7,
        "message"@[0] == 'm',
        "method"@.len() == 6,
        "method"@[0] == 'm',
        "modelContextWindow"@.len() == 18,
        "params"@.len() == 6,
        "params"@[0] == 'p',
        "part"@.len() == 4,
        "part"@[0] == 'p',
        "part"@[1] == 'a',
        "permission"@.len() == 10,
        "permission"@[0] == 'p',
        "permission"@[1] == 'e',
        "plan"@.len() == 4,
        "plan"@[0] == 'p',
        "plan"@[1] == 'l',
        "properties"@.len() == 10,
        "properties"@[0] == 'p',
        "properties"@[1] == 'r',
        "questions"@.len() == 9,
        "questions"@[0] == 'q',
        "requestId"@.len() == 9,
        "requestId"@[0] == 'r',
        "sessionID"@.len() == 9,
        "sessionID"@[0] == 's',
        "sessionID"@[8] == 'D',
        "sessionId"@.len() == 9,
        "sessionId"@[0] == 's',
        "sessionId"@[8] == 'd',
        "session_id"@.len() == 10,
        "session_id"@[0] == 's',
        "status"@.len() == 6,
        "status"@[0] == 's',
        "text"@.len() == 4,
        "text"@[0] == 't',
        "text"@[1] == 'e',
        "thread"@.len() == 6,
        "thread"@[0] == 't',
        "thread"@[1] == 'h',
        "threadId"@.len() == 8,
        "threadName"@.len() == 10,
        "threadName"@[0] == 't',
        "threadName"@[1] == 'h',
        "tokenUsage"@.len() == 10,
        "tokenUsage"@[0] == 't',
        "tokenUsage"@[1] == 'o',
        "total"@.len() == 5,
        "total"@[0] == 't',
        "turn"@.len() == 4,
        "turn"@[0] == 't',
        "turn"@[1] == 'u',
        "turnId"@.len() == 6,
        "turnId"@[0] == 't',
        "turnId"@[1] == 'u',
        "type"@.len() == 4,
        "type"@[0] == 't',
        "type"@[1] == 'y',
        "willRetry"@.len() == 9,
        "willRetry"@[0] == 'w',
        "workspaceId"@.len() == 11,
        "workspaceId"@[0] == 'w',
{
    reveal_strlit("");
    reveal_strlit("command");
    reveal_strlit("content");
    reveal_strlit("delta");
    reveal_strlit("error");
    reveal_strlit("explanation");
    reveal_strlit("id");
    reveal_strlit("info");
    reveal_strlit("item");
    reveal_strlit("itemId");
    reveal_strlit("last");
    reveal_strlit("message");
    reveal_strlit("method");
    reveal_strlit("modelContextWindow");
    reveal_strlit("params");
    reveal_strlit("part");
    reveal_strlit("permission");
    reveal_strlit("plan");
    reveal_strlit("properties");
    reveal_strlit("questions");
    reveal_strlit("requestId");
    reveal_strlit("sessionID");
    reveal_strlit("sessionId");
    reveal_strlit("session_id");
    reveal_strlit("status");
    reveal_strlit("text");
    reveal_strlit("thread");
    reveal_strlit("threadId");
    reveal_strlit("threadName");
    reveal_strlit("tokenUsage");
    reveal_strlit("total");
    reveal_strlit("turn");
    reveal_strlit("turnId");
    reveal_strlit("type");
    reveal_strlit("willRetry");
    reveal_strlit("workspaceId");
}

// ---------------------------------------------------------------------------
// Sessions of events
// ---------------------------------------------------------------------------

proof fn lemma_item_message_reads(method: Seq<char>, thread_id: Seq<char>, item: JsonView)
    ensures
        reading::param(event_translator::item_message(method, thread_id, item), "threadId"@) == reading::found(
            thread_id,
        ),
        reading::param(event_translator::item_message(method, thread_id, item), "item"@) == Some(item),
        reading::has_method(event_translator::item_message(method, thread_id, item), method),
{
    broadcast use reading::group_reading;
    lemma_event_names();
}

/// What a message about an item shows.
pub proof fn lemma_item_messages_read()
    ensures
        forall|method: Seq<char>, thread_id: Seq<char>, item: JsonView|
            {
                let m = #[trigger] event_translator::item_message(method, thread_id, item);
                &&& reading::param(m, "threadId"@) == reading::found(thread_id)
                &&& reading::param(m, "item"@) == Some(item)
                &&& reading::has_method(m, method)
            },
{
    assert forall|method: Seq<char>, thread_id: Seq<char>, item: JsonView| {
        let m = #[trigger] event_translator::item_message(method, thread_id, item);
        &&& reading::param(m, "threadId"@) == reading::found(thread_id)
        &&& reading::param(m, "item"@) == Some(item)
        &&& reading::has_method(m, method)
    } by {
        lemma_item_message_reads(method, thread_id, item);
    }
}

proof fn lemma_delta_message_reads(
    method: Seq<char>,
    thread_id: Seq<char>,
    turn_id: Seq<char>,
    item_id: Seq<char>,
    delta: Seq<char>,
)
    ensures
        ({
            let m = event_translator::delta_message(method, thread_id, turn_id, item_id, delta);
            &&& reading::has_method(m, method)
            &&& reading::param(m, "threadId"@) == reading::found(thread_id)
            &&& reading::param(m, "turnId"@) == reading::found(turn_id)
            &&& reading::param(m, "itemId"@) == reading::found(item_id)
            &&& reading::param(m, "delta"@) == reading::found(delta)
            &&& reading::param(m, "item"@) is None
        }),
{
    broadcast use reading::group_reading;
    lemma_event_names();
}

/// What a message with a delta shows.
pub proof fn lemma_delta_messages_read()
    ensures
        forall|method: Seq<char>, thread_id: Seq<char>, turn_id: Seq<char>, item_id: Seq<char>, delta: Seq<char>|
            {
                let m = #[trigger] event_translator::delta_message(method, thread_id, turn_id, item_id, delta);
                &&& reading::has_method(m, method)
                &&& reading::param(m, "threadId"@) == reading::found(thread_id)
                &&& reading::param(m, "turnId"@) == reading::found(turn_id)
                &&& reading::param(m, "itemId"@) == reading::found(item_id)
                &&& reading::param(m, "delta"@) == reading::found(delta)
                &&& reading::param(m, "item"@) is None
            },
{
    assert forall|method: Seq<char>, thread_id: Seq<char>, turn_id: Seq<char>, item_id: Seq<char>, delta: Seq<char>| {
        let m = #[trigger] event_translator::delta_message(method, thread_id, turn_id, item_id, delta);
        &&& reading::has_method(m, method)
        &&& reading::param(m, "threadId"@) == reading::found(thread_id)
        &&& reading::param(m, "turnId"@) == reading::found(turn_id)
        &&& reading::param(m, "itemId"@) == reading::found(item_id)
        &&& reading::param(m, "delta"@) == reading::found(delta)
        &&& reading::param(m, "item"@) is None
    } by {
        lemma_delta_message_reads(method, thread_id, turn_id, item_id, delta);
    }
}

pub proof fn lemma_plan_reads(thread_id: Seq<char>, turn_id: Seq<char>, todos: JsonView)
    ensures
        ({
            let m = tool_items::plan_event(thread_id, turn_id, todos);
            &&& reading::has_method(m, "turn/plan/updated"@)
            &&& reading::param(m, "threadId"@) == reading::found(thread_id)
            &&& reading::param(m, "turnId"@) == reading::found(turn_id)
            &&& reading::param(m, "plan"@) == Some(JsonView::Array(tool_items::steps_of(todos)))
        }),
{
    broadcast use reading::group_reading;
    lemma_event_names();
}

proof fn lemma_text_is_about(
    s: StateView,
    thread_id: Seq<char>,
    part_id: Option<Seq<char>>,
    full_text: Seq<char>,
    delta: Seq<char>,
)
    ensures
        all_about(event_translator::user_text_updated(s, thread_id, full_text, delta).1, thread_id),
        all_about(event_translator::agent_text_updated(s, thread_id, part_id, full_text, delta).1, thread_id),
        all_about(event_translator::reasoning_updated(s, thread_id, part_id, full_text, delta).1, thread_id),
        event_translator::user_text_updated(s, thread_id, full_text, delta).0.session_id == s.session_id,
        event_translator::agent_text_updated(s, thread_id, part_id, full_text, delta).0.session_id == s.session_id,
        event_translator::reasoning_updated(s, thread_id, part_id, full_text, delta).0.session_id == s.session_id,
{
    lemma_item_messages_read();
    lemma_delta_messages_read();
}

proof fn lemma_summary_is_about(s: StateView, thread_id: Seq<char>, line: Seq<char>)
    ensures
        all_about(event_translator::reasoning_summary(s, thread_id, line).1, thread_id),
        event_translator::reasoning_summary(s, thread_id, line).0.session_id == s.session_id,
{
    broadcast use reading::group_reading;
    lemma_event_names();
}

proof fn lemma_plain_tool_is_about(
    item_id: Seq<char>,
    thread_id: Seq<char>,
    tool_name: Seq<char>,
    status: Seq<char>,
    tool_state: JsonView,
    diffs: DiffsView,
)
    ensures
        all_about(
            event_translator::plain_tool_messages(item_id, thread_id, tool_name, status, tool_state, diffs),
            thread_id,
        ),
{
    lemma_item_messages_read();
    assert forall|method: Seq<char>, delta: Seq<char>| reading::param(
        #[trigger] event_translator::message(
            method,
            json::obj().and("threadId"@, JsonView::Text(thread_id)).and("itemId"@, JsonView::Text(item_id)).and(
                "delta"@,
                JsonView::Text(delta),
            ),
        ),
        "threadId"@,
    ) == reading::found(thread_id) by {
        broadcast use reading::group_reading;
        lemma_event_names();
    }
}

proof fn lemma_tool_is_about(
    item_id: Seq<char>,
    thread_id: Seq<char>,
    turn_id: Seq<char>,
    tool_name: Seq<char>,
    status: Seq<char>,
    tool_state: JsonView,
    diffs: DiffsView,
)
    ensures
        all_about(
            event_translator::tool_messages(item_id, thread_id, turn_id, tool_name, status, tool_state, diffs),
            thread_id,
        ),
{
    lemma_item_messages_read();
    lemma_plain_tool_is_about(item_id, thread_id, tool_name, status, tool_state, diffs);
    lemma_plan_reads(thread_id, turn_id, tool_items::todo_list_of(tool_state.get("input"@), tool_state));
}

proof fn lemma_tool_part_is_about(part: JsonView, s: StateView, thread_id: Seq<char>, diffs: DiffsView)
    ensures
        all_about(event_translator::tool_part(part, s, thread_id, diffs).1, thread_id),
        event_translator::tool_part(part, s, thread_id, diffs).0.session_id == s.session_id,
{
    if let Some(tool_state) = part.get("state"@) {
        let part_id = text::text_or(part.get_str("id"@), ""@);
        lemma_tool_is_about(
            s.tool_call_item(thread_id, part_id).1,
            thread_id,
            s.turn(thread_id).turn_id,
            text::text_or(part.get_str("tool"@), "unknown"@),
            text::text_or(tool_state.get_str("status"@), "pending"@),
            tool_state,
            diffs,
        );
    }
}

/// The messages for an update of a part are about the session that the part names, whichever was
/// active before, and that session is active from then on; where it names none, they are about the
/// active one.
pub proof fn law_part_is_shown_in_its_session(
    event: JsonView,
    s: StateView,
    diffs: DiffsView,
    p: JsonView,
    part: JsonView,
)
    requires
        is_event(event, "message.part.updated"@, p),
        p.get("part"@) == Some(part),
    ensures
        ({
            let (after, messages) = event_translator::sse_event(event, s, diffs);
            let session = named_session(part.get("sessionID"@), s.session_id);
            after.session_id == session && all_about(messages, session)
        }),
{
    lemma_kinds();
    let s1 = event_translator::entered(s, part.get_str("sessionID"@));
    let full_text = text::text_or(part.get_str("text"@), ""@);
    let delta = text::text_or(p.get_str("delta"@), ""@);
    lemma_text_is_about(s1, s1.session_id, part.get_str("id"@), full_text, delta);
    lemma_summary_is_about(s1, s1.session_id, event_translator::subtask_label(part));
    lemma_summary_is_about(s1, s1.session_id, text::text_or(part.get_str("name"@), ""@));
    lemma_tool_part_is_about(part, s1, s1.session_id, diffs);
}

/// The messages for a delta are about the session that it names, or else the active one.
pub proof fn law_delta_is_shown_in_its_session(event: JsonView, s: StateView, diffs: DiffsView, p: JsonView)
    requires
        is_event(event, "message.part.delta"@, p),
        reading::string_at(p, "delta"@).len() > 0,
    ensures
        ({
            let (after, messages) = event_translator::sse_event(event, s, diffs);
            let session = named_session(p.get("sessionID"@), s.session_id);
            after.session_id == session && all_about(messages, session)
        }),
{
    lemma_kinds();
    lemma_item_messages_read();
    lemma_delta_messages_read();
}

/// The messages on the status of a session are about the session that is named, in one of three
/// spellings, or else the active one.
pub proof fn law_status_is_shown_in_its_session(event: JsonView, s: StateView, diffs: DiffsView, p: JsonView)
    requires
        is_event(event, "session.status"@, p) || is_event(event, "session.idle"@, p) || is_event(
            event,
            "session.error"@,
            p,
        ),
    ensures
        ({
            let (after, messages) = event_translator::sse_event(event, s, diffs);
            let session = named_session(
                reading::first(reading::first(p.get("sessionID"@), p.get("session_id"@)), p.get("id"@)),
                s.session_id,
            );
            after.session_id == session && all_about(messages, session)
        }),
{
    lemma_kinds();
    lemma_item_messages_read();
    assert forall|method: Seq<char>, session: Seq<char>, turn: Seq<char>| reading::param(
        #[trigger] event_translator::message(method, event_translator::turn_params(session, turn)),
        "threadId"@,
    ) == reading::found(session) by {
        broadcast use reading::group_reading;
        lemma_event_names();
    }
    assert forall|session: Seq<char>, turn: Seq<char>, error: Seq<char>| reading::param(
        #[trigger] event_translator::error_message(session, turn, error),
        "threadId"@,
    ) == reading::found(session) by {
        broadcast use reading::group_reading;
        lemma_event_names();
    }
}

// ---------------------------------------------------------------------------
// Token usage
// ---------------------------------------------------------------------------

proof fn lemma_usage_names()
    ensures
        ""@.len() == 0,
        "cache"@.len() == 5,
        "cache"@[0] == 'c',
        "cacheReadInputTokens"@.len() == 20,
        "cachedInputTokens"@.len() == 17,
        "id"@.len() == 2,
        "info"@.len() == 4,
        "info"@[0] == 'i',
        "input"@.len() == 5,
        "input"@[0] == 'i',
        "inputTokens"@.len() == 11,
        "inputTokens"@[0] == 'i',
        "last"@.len() == 4,
        "last"@[0] == 'l',
        "method"@.len() == 6,
        "method"@[0] == 'm',
        "model"@.len() == 5,
        "model"@[0] == 'm',
        "modelContextWindow"@.len() == 18,
        "modelID"@.len() == 7,
        "model_id"@.len() == 8,
        "model_id"@[0] == 'm',
        "output"@.len() == 6,
        "output"@[0] == 'o',
        "outputTokens"@.len() == 12,
        "params"@.len() == 6,
        "params"@[0] == 'p',
        "providerID"@.len() == 10,
        "providerID"@[0] == 'p',
        "provider_id"@.len() == 11,
        "provider_id"@[0] == 'p',
        "read"@.len() == 4,
        "read"@[0] == 'r',
        "read"@[1] == 'e',
        "reasoning"@.len() == 9,
        "reasoning"@[0] == 'r',
        "reasoningOutputTokens"@.len() == 21,
        "reasoningTokens"@.len() == 15,
        "role"@.len() == 4,
        "role"@[0] == 'r',
        "role"@[1] == 'o',
        "sessionID"@.len() == 9,
        "sessionID"@[0] == 's',
        "threadId"@.len() == 8,
        "threadId"@[0] == 't',
        "tokenUsage"@.len() == 10,
        "tokenUsage"@[0] == 't',
        "tokens"@.len() == 6,
        "tokens"@[0] == 't',
        "total"@.len() == 5,
        "total"@[0] == 't',
        "totalTokens"@.len() == 11,
        "totalTokens"@[0] == 't',
{
    reveal_strlit("");
    reveal_strlit("cache");
    reveal_strlit("cacheReadInputTokens");
    reveal_strlit("cachedInputTokens");
    reveal_strlit("id");
    reveal_strlit("info");
    reveal_strlit("input");
    reveal_strlit("inputTokens");
    reveal_strlit("last");
    reveal_strlit("method");
    reveal_strlit("model");
    reveal_strlit("modelContextWindow");
    reveal_strlit("modelID");
    reveal_strlit("model_id");
    reveal_strlit("output");
    reveal_strlit("outputTokens");
    reveal_strlit("params");
    reveal_strlit("providerID");
    reveal_strlit("provider_id");
    reveal_strlit("read");
    reveal_strlit("reasoning");
    reveal_strlit("reasoningOutputTokens");
    reveal_strlit("reasoningTokens");
    reveal_strlit("role");
    reveal_strlit("sessionID");
    reveal_strlit("threadId");
    reveal_strlit("tokenUsage");
    reveal_strlit("tokens");
    reveal_strlit("total");
    reveal_strlit("totalTokens");
}

/// A number as a value that was found.
pub open spec fn counted(n: u64) -> Option<JsonView> {
    Some(JsonView::Number(NumberView::Unsigned(n)))
}

/// The token usage that a message shows.
pub open spec fn usage_field(m: JsonView, which: Seq<char>, name: Seq<char>) -> Option<JsonView> {
    reading::within(reading::within(reading::param(m, "tokenUsage"@), which), name)
}

/// The token usage of a message is shown in the thread of the session that the message names,
/// whichever was active before, and that session is active from then on; where it names none, it is
/// shown in the active one. At most one message is sent for it.
pub proof fn law_usage_is_shown_in_its_session(
    event: JsonView,
    s: StateView,
    diffs: DiffsView,
    p: JsonView,
    info: JsonView,
)
    requires
        is_event(event, "message.updated"@, p),
        p.get("info"@) == Some(info),
    ensures
        ({
            let (after, messages) = event_translator::sse_event(event, s, diffs);
            let session = named_session(info.get("sessionID"@), s.session_id);
            &&& after.session_id == session
            &&& all_about(messages, session)
            &&& messages.len() <= 1
            &&& messages.len() == 1 ==> reading::has_method(messages[0], "thread/tokenUsage/updated"@)
            &&& after.session_turns == s.session_turns
            &&& after.item_counter == s.item_counter
        }),
{
    lemma_kinds();
    broadcast use reading::group_reading;
    lemma_event_names();
    lemma_usage_names();
}

/// The numbers that are shown are those of the message, each under its own name, as a total and as
/// the last one: those of `tokens`, or else those that stand in the message itself.
pub proof fn law_usage_shows_the_counts(
    event: JsonView,
    s: StateView,
    diffs: DiffsView,
    p: JsonView,
    info: JsonView,
    which: Seq<char>,
)
    requires
        is_event(event, "message.updated"@, p),
        p.get("info"@) == Some(info),
        event_translator::sse_event(event, s, diffs).1.len() > 0,
        which == "total"@ || which == "last"@,
    ensures
        ({
            let m = event_translator::sse_event(event, s, diffs).1[0];
            let tokens = info.get("tokens"@);
            let input = reading::first(reading::within(tokens, "input"@), info.get("inputTokens"@));
            let output = reading::first(reading::within(tokens, "output"@), info.get("outputTokens"@));
            let cached = reading::first(
                reading::first(
                    reading::within(reading::within(tokens, "cache"@), "read"@),
                    info.get("cachedInputTokens"@),
                ),
                info.get("cacheReadInputTokens"@),
            );
            let reasoning = reading::first(
                reading::first(reading::within(tokens, "reasoning"@), info.get("reasoningOutputTokens"@)),
                info.get("reasoningTokens"@),
            );
            &&& input matches Some(JsonView::Number(NumberView::Unsigned(n))) ==> usage_field(m, which, "inputTokens"@)
                == input
            &&& input is None ==> usage_field(m, which, "inputTokens"@) == counted(0)
            &&& output matches Some(JsonView::Number(NumberView::Unsigned(n))) ==> usage_field(m, which, "outputTokens"@)
                == output
            &&& output is None ==> usage_field(m, which, "outputTokens"@) == counted(0)
            &&& cached matches Some(JsonView::Number(NumberView::Unsigned(n))) ==> usage_field(
                m,
                which,
                "cachedInputTokens"@,
            ) == cached
            &&& cached is None ==> usage_field(m, which, "cachedInputTokens"@) == counted(0)
            &&& reasoning matches Some(JsonView::Number(NumberView::Unsigned(n))) ==> usage_field(
                m,
                which,
                "reasoningOutputTokens"@,
            ) == reasoning
            &&& reasoning is None ==> usage_field(m, which, "reasoningOutputTokens"@) == counted(0)
        }),
{
    lemma_kinds();
    broadcast use reading::group_reading;
    lemma_event_names();
    lemma_usage_names();
}

/// The total is the one that is given, or else the sum of input and output; nothing is sent where
/// it is zero, and a message is sent where it is not.
pub proof fn law_total_is_given_or_the_sum(
    event: JsonView,
    s: StateView,
    diffs: DiffsView,
    p: JsonView,
    info: JsonView,
    input: u64,
    output: u64,
)
    requires
        is_event(event, "message.updated"@, p),
        p.get("info"@) == Some(info),
        reading::within(info.get("tokens"@), "input"@) == counted(input),
        reading::within(info.get("tokens"@), "output"@) == counted(output),
        input + output <= u64::MAX,
    ensures
        ({
            let messages = event_translator::sse_event(event, s, diffs).1;
            let given = reading::within(info.get("tokens"@), "total"@);
            &&& given is None ==> (messages.len() > 0 <==> input + output > 0)
            &&& given is None && messages.len() > 0 ==> usage_field(messages[0], "total"@, "totalTokens"@) == counted(
                (input + output) as u64,
            )
            &&& given matches Some(JsonView::Number(NumberView::Unsigned(n))) ==> (messages.len() > 0 <==> n > 0)
            &&& given matches Some(JsonView::Number(NumberView::Unsigned(n))) ==> (n > 0 ==> usage_field(
                messages[0],
                "total"@,
                "totalTokens"@,
            ) == given && usage_field(messages[0], "last"@, "totalTokens"@) == given)
        }),
{
    lemma_kinds();
    broadcast use reading::group_reading;
    lemma_event_names();
    lemma_usage_names();
}

/// The context window that is shown is the one that is known for the provider and the model of the
/// message, and zero where none is known.
pub proof fn law_usage_shows_the_window(
    event: JsonView,
    s: StateView,
    diffs: DiffsView,
    p: JsonView,
    info: JsonView,
    provider: Seq<char>,
    model: Seq<char>,
)
    requires
        is_event(event, "message.updated"@, p),
        p.get("info"@) == Some(info),
        event_translator::sse_event(event, s, diffs).1.len() > 0,
        info.get("providerID"@) == reading::found(provider) && info.get("modelID"@) == reading::found(model) || (
        info.get("providerID"@) is None && info.get("provider_id"@) is None && info.get("modelID"@) is None
            && info.get("model_id"@) is None && reading::within(info.get("model"@), "providerID"@)
            == reading::found(provider) && reading::within(info.get("model"@), "modelID"@) == reading::found(model)),
        text::trim_of(provider) == provider,
        text::trim_of(model) == model,
        provider.len() > 0,
        model.len() > 0,
    ensures
        ({
            let m = event_translator::sse_event(event, s, diffs).1[0];
            let shown = reading::within(reading::param(m, "tokenUsage"@), "modelContextWindow"@);
            let name = provider + "/"@ + model;
            &&& s.model_context_windows.contains_key(name) ==> shown == counted(s.model_context_windows[name])
            &&& s.model_context_windows == Map::<Seq<char>, u64>::empty() ==> shown == counted(0)
        }),
{
    lemma_kinds();
    broadcast use reading::group_reading;
    lemma_event_names();
    lemma_usage_names();
}

/// A count is a number that is not negative, or a text that denotes a positive one; nothing else
/// is.
pub proof fn law_counts_are_numbers(n: u64, negative: i64, s: Seq<char>)
    ensures
        event_translator::count_of(counted(n)) == Some(n),
        event_translator::count_of(Some(JsonView::Number(NumberView::Negative(negative)))) is None,
        event_translator::count_of(Some(JsonView::Null)) is None,
        event_translator::count_of(None) is None,
        event_translator::count_of(reading::found(s)) matches Some(k) ==> k > 0 && text::parsed_u64(text::trim_of(s))
            == Some(k),
        text::parsed_u64(text::trim_of(s)) matches Some(k) ==> (k > 0 ==> event_translator::count_of(
            reading::found(s),
        ) == Some(k)),
{
}

/// The role that a message tells is remembered for it, and for no other; a message without a role
/// changes none.
pub proof fn law_role_is_remembered(
    event: JsonView,
    s: StateView,
    diffs: DiffsView,
    p: JsonView,
    info: JsonView,
    other: Seq<char>,
)
    requires
        is_event(event, "message.updated"@, p),
        p.get("info"@) == Some(info),
    ensures
        ({
            let after = event_translator::sse_event(event, s, diffs).0;
            let id = text::trim_of(reading::string_at(info, "id"@));
            let role = text::trim_of(reading::string_at(info, "role"@));
            &&& id.len() > 0 && role.len() > 0 ==> session_state::lookup(after.message_roles, id) == Some(role)
            &&& other != id || role.len() == 0 ==> session_state::lookup(after.message_roles, other)
                == session_state::lookup(s.message_roles, other)
        }),
{
    lemma_kinds();
    lemma_empty_trims();
}

proof fn lemma_empty_trims()
    ensures
        text::trim_of(Seq::empty()).len() == 0,
{
}

// ---------------------------------------------------------------------------
// Sessions that are made or changed
// ---------------------------------------------------------------------------

proof fn lemma_session_names()
    ensures
        ""@.len() == 0,
        "created"@.len() == 7,
        "created"@[0] == 'c',
        "createdAt"@.len() == 9,
        "createdAt"@[0] == 'c',
        "created_at"@.len() == 10,
        "created_at"@[0] == 'c',
        "id"@.len() == 2,
        "method"@.len() == 6,
        "method"@[0] == 'm',
        "name"@.len() == 4,
        "name"@[0] == 'n',
        "params"@.len() == 6,
        "params"@[0] == 'p',
        "parentID"@.len() == 8,
        "parentID"@[0] == 'p',
        "parentID"@[7] == 'D',
        "parentId"@.len() == 8,
        "parentId"@[0] == 'p',
        "parentId"@[7] == 'd',
        "parent_id"@.len() == 9,
        "parent_id"@[0] == 'p',
        "preview"@.len() == 7,
        "preview"@[0] == 'p',
        "session"@.len() == 7,
        "session"@[0] == 's',
        "sessionID"@.len() == 9,
        "sessionID"@[0] == 's',
        "sessionID"@[8] == 'D',
        "sessionId"@.len() == 9,
        "sessionId"@[0] == 's',
        "sessionId"@[8] == 'd',
        "session_id"@.len() == 10,
        "session_id"@[0] == 's',
        "thread"@.len() == 6,
        "thread"@[0] == 't',
        "threadId"@.len() == 8,
        "threadId"@[0] == 't',
        "threadName"@.len() == 10,
        "threadName"@[0] == 't',
        "time"@.len() == 4,
        "time"@[0] == 't',
        "title"@.len() == 5,
        "updated"@.len() == 7,
        "updated"@[0] == 'u',
        "updatedAt"@.len() == 9,
        "updatedAt"@[0] == 'u',
        "updated_at"@.len() == 10,
        "updated_at"@[0] == 'u',
{
    reveal_strlit("");
    reveal_strlit("created");
    reveal_strlit("createdAt");
    reveal_strlit("created_at");
    reveal_strlit("id");
    reveal_strlit("method");
    reveal_strlit("name");
    reveal_strlit("params");
    reveal_strlit("parentID");
    reveal_strlit("parentId");
    reveal_strlit("parent_id");
    reveal_strlit("preview");
    reveal_strlit("session");
    reveal_strlit("sessionID");
    reveal_strlit("sessionId");
    reveal_strlit("session_id");
    reveal_strlit("thread");
    reveal_strlit("threadId");
    reveal_strlit("threadName");
    reveal_strlit("time");
    reveal_strlit("title");
    reveal_strlit("updated");
    reveal_strlit("updatedAt");
    reveal_strlit("updated_at");
}

/// A session that was made or changed is told of as a thread with its identifier, its title and its
/// times, and becomes the active one. Its name is told of where it has one.
pub proof fn law_session_is_told_of(event: JsonView, s: StateView, diffs: DiffsView, p: JsonView, session: JsonView)
    requires
        is_event(event, "session.created"@, p) || is_event(event, "session.updated"@, p),
        p.get("session"@) == Some(session) || (p.get("session"@) is None && p.get("id"@) is Some && p == session),
        text::trim_of(reading::string_at(session, "id"@)).len() > 0,
    ensures
        ({
            let (after, messages) = event_translator::sse_event(event, s, diffs);
            let id = text::trim_of(reading::string_at(session, "id"@));
            let title = match reading::first(session.get("title"@), session.get("name"@)) {
                Some(JsonView::Text(t)) => text::trim_of(t),
                _ => Seq::empty(),
            };
            let thread = reading::param(messages[0], "thread"@);
            &&& after.session_id == id
            &&& after.session_turns == s.session_turns
            &&& messages.len() == (if title.len() > 0 {
                2nat
            } else {
                1nat
            })
            &&& reading::has_method(messages[0], "thread/started"@)
            &&& reading::within(thread, "id"@) == reading::found(id)
            &&& reading::within(thread, "preview"@) == reading::found(title)
            &&& session.get("updatedAt"@) is Some ==> reading::within(thread, "updatedAt"@) == session.get("updatedAt"@)
            &&& session.get("createdAt"@) is Some ==> reading::within(thread, "createdAt"@) == session.get("createdAt"@)
            &&& title.len() > 0 ==> {
                &&& reading::has_method(messages[1], "thread/name/updated"@)
                &&& reading::param(messages[1], "threadId"@) == reading::found(id)
                &&& reading::param(messages[1], "threadName"@) == reading::found(title)
            }
        }),
{
    lemma_kinds();
    broadcast use reading::group_reading;
    lemma_event_names();
    lemma_session_names();
    assert(""@ =~= Seq::<char>::empty());
    assert(text::trim_of(Seq::<char>::empty()) =~= Seq::<char>::empty());
}

/// The times and the parent of a session are read in each of their spellings, and an identifier or
/// a title too.
pub proof fn law_session_is_read_in_every_spelling(session: JsonView)
    ensures
        ({
            let time = session.get("time"@);
            let updated = reading::first(
                reading::first(session.get("updatedAt"@), session.get("updated_at"@)),
                reading::first(
                    reading::first(reading::within(time, "updated"@), reading::within(time, "updatedAt"@)),
                    reading::within(time, "updated_at"@),
                ),
            );
            let created = reading::first(
                reading::first(session.get("createdAt"@), session.get("created_at"@)),
                reading::first(
                    reading::first(reading::within(time, "created"@), reading::within(time, "createdAt"@)),
                    reading::within(time, "created_at"@),
                ),
            );
            let id = reading::first(
                reading::first(session.get("id"@), session.get("sessionID"@)),
                reading::first(session.get("sessionId"@), session.get("session_id"@)),
            );
            let title = reading::first(session.get("title"@), session.get("name"@));
            let parent = reading::first(
                reading::first(session.get("parentID"@), session.get("parentId"@)),
                session.get("parent_id"@),
            );
            &&& updated is Some ==> Some(event_translator::session_updated_at_of(session)) == updated
            &&& updated is None ==> event_translator::session_updated_at_of(session) is Null
            &&& created is Some ==> Some(event_translator::session_created_at_of(session)) == created
            &&& created is None ==> event_translator::session_created_at_of(session) is Null
            &&& id matches Some(JsonView::Text(x)) ==> event_translator::session_id_of(session) == text::trim_of(x)
            &&& id is None ==> event_translator::session_id_of(session).len() == 0
            &&& title matches Some(JsonView::Text(x)) ==> event_translator::session_title_of(session)
                == text::trim_of(x)
            &&& title is None ==> event_translator::session_title_of(session).len() == 0
            &&& parent matches Some(JsonView::Text(x)) ==> if text::trim_of(x).len() > 0 {
                event_translator::session_parent_of(session) == Some(text::trim_of(x))
            } else {
                event_translator::session_parent_of(session) is None
            }
            &&& parent is None ==> event_translator::session_parent_of(session) is None
            &&& event_translator::session_thread(session).get("parentId"@) == (match event_translator::session_parent_of(
                session,
            ) {
                Some(x) => reading::found(x),
                None => None,
            })
            &&& event_translator::session_thread(session).get("createdAt"@) == Some(
                event_translator::session_created_at_of(session),
            )
            &&& event_translator::session_thread(session).get("updatedAt"@) == Some(
                event_translator::session_updated_at_of(session),
            )
        }),
{
    broadcast use reading::group_reading;
    lemma_session_names();
    assert(""@ =~= Seq::<char>::empty());
    lemma_empty_trims();
}

// ---------------------------------------------------------------------------
// Turns
// ---------------------------------------------------------------------------

proof fn lemma_turn_names()
    ensures
        ""@.len() == 0,
        "active"@.len() == 6,
        "active"@[0] == 'a',
        "agentMessage"@.len() == 12,
        "busy"@.len() == 4,
        "busy"@[0] == 'b',
        "data"@.len() == 4,
        "data"@[0] == 'd',
        "error"@.len() == 5,
        "id"@.len() == 2,
        "idle"@.len() == 4,
        "idle"@[0] == 'i',
        "idle"@[1] == 'd',
        "item"@.len() == 4,
        "item"@[0] == 'i',
        "item"@[1] == 't',
        "message"@.len() == 7,
        "message"@[0] == 'm',
        "method"@.len() == 6,
        "method"@[0] == 'm',
        "name"@.len() == 4,
        "name"@[0] == 'n',
        "params"@.len() == 6,
        "params"@[0] == 'p',
        "running"@.len() == 7,
        "running"@[0] == 'r',
        "status"@.len() == 6,
        "status"@[0] == 's',
        "text"@.len() == 4,
        "text"@[0] == 't',
        "text"@[1] == 'e',
        "threadId"@.len() == 8,
        "turn"@.len() == 4,
        "turn"@[0] == 't',
        "turn"@[1] == 'u',
        "turnId"@.len() == 6,
        "turnId"@[0] == 't',
        "type"@.len() == 4,
        "type"@[0] == 't',
        "type"@[1] == 'y',
        "unknown error"@.len() == 13,
        "willRetry"@.len() == 9,
{
    reveal_strlit("");
    reveal_strlit("active");
    reveal_strlit("agentMessage");
    reveal_strlit("busy");
    reveal_strlit("data");
    reveal_strlit("error");
    reveal_strlit("id");
    reveal_strlit("idle");
    reveal_strlit("item");
    reveal_strlit("message");
    reveal_strlit("method");
    reveal_strlit("name");
    reveal_strlit("params");
    reveal_strlit("running");
    reveal_strlit("status");
    reveal_strlit("text");
    reveal_strlit("threadId");
    reveal_strlit("turn");
    reveal_strlit("turnId");
    reveal_strlit("type");
    reveal_strlit("unknown error");
    reveal_strlit("willRetry");
}

/// The turn that a message names.
pub open spec fn turn_of(m: JsonView) -> Option<JsonView> {
    reading::within(reading::param(m, "turn"@), "id"@)
}

/// A session that is at work, and has no turn, starts one: one message tells of it, under the
/// identifier that the turn has from then on. One that has a turn already, or a status of another
/// kind, starts none.
pub proof fn law_work_starts_a_turn(event: JsonView, s: StateView, diffs: DiffsView, p: JsonView, status: Seq<char>)
    requires
        is_event(event, "session.status"@, p),
        reading::within(p.get("status"@), "type"@) == reading::found(status),
        s.item_counter < u64::MAX,
    ensures
        ({
            let (after, messages) = event_translator::sse_event(event, s, diffs);
            let session = after.session_id;
            let turn = after.turn(session).turn_id;
            if (status == "active"@ || status == "running"@ || status == "busy"@) && session.len() > 0 && s.turn(
                session,
            ).turn_id.len() == 0 {
                &&& messages.len() == 1
                &&& reading::has_method(messages[0], "turn/started"@)
                &&& turn_of(messages[0]) == reading::found(turn)
                &&& turn == "turn_rest_"@ + text::decimal(s.item_counter as nat)
                &&& s.turn(session).user_message_item_id is None ==> after.turn(session).user_message_item_id == Some(
                    "item_"@ + text::decimal((s.item_counter + 1) as nat),
                )
                &&& s.turn(session).user_message_item_id is Some ==> after.turn(session).user_message_item_id == s.turn(
                    session,
                ).user_message_item_id && after.item_counter == s.item_counter + 1
            } else {
                forall|i: int|
                    0 <= i < messages.len() ==> !reading::has_method(#[trigger] messages[i], "turn/started"@)
            }
        }),
{
    lemma_kinds();
    broadcast use reading::group_reading;
    lemma_event_names();
    lemma_turn_names();
    lemma_methods();
}

proof fn lemma_methods()
    ensures
        "error"@.len() == 5,
        "item/completed"@.len() == 14,
        "item/completed"@[0] == 'i',
        "turn/completed"@.len() == 14,
        "turn/completed"@[0] == 't',
        "turn/started"@.len() == 12,
{
    reveal_strlit("error");
    reveal_strlit("item/completed");
    reveal_strlit("turn/completed");
    reveal_strlit("turn/started");
}

/// A session that goes idle ends its turn: the last message tells that the turn it had is over, and
/// one before it completes the message of the agent, where one was being sent. Nothing of the turn
/// is left.
pub proof fn law_idle_tells_the_end_of_the_turn(event: JsonView, s: StateView, diffs: DiffsView, p: JsonView)
    requires
        is_event(event, "session.idle"@, p) || is_event(event, "session.status"@, p) && reading::within(
            p.get("status"@),
            "type"@,
        ) == reading::found("idle"@),
        event_translator::sse_event(event, s, diffs).0.session_id.len() > 0,
    ensures
        ({
            let (after, messages) = event_translator::sse_event(event, s, diffs);
            let session = after.session_id;
            let before = s.turn(session);
            &&& messages.len() == (if before.agent_message_item_id is Some {
                2nat
            } else {
                1nat
            })
            &&& reading::has_method(messages.last(), "turn/completed"@)
            &&& turn_of(messages.last()) == reading::found(before.turn_id)
            &&& before.agent_message_item_id matches Some(id) ==> {
                &&& reading::has_method(messages[0], "item/completed"@)
                &&& reading::item_field(messages[0], "id"@) == reading::found(id)
                &&& reading::item_field(messages[0], "type"@) == reading::found("agentMessage"@)
            }
            &&& after.turn(session).turn_id.len() == 0
            &&& after.turn(session).agent_message_item_id is None
            &&& after.turn(session).reasoning_item_id is None
            &&& after.turn(session).user_message_item_id is None
            &&& after.turn(session).user_message_text.len() == 0
        }),
{
    lemma_kinds();
    broadcast use reading::group_reading;
    lemma_event_names();
    lemma_turn_names();
}

/// A failure ends the turn: one message tells the error, its text and the turn that it ended.
pub proof fn law_failure_is_told(event: JsonView, s: StateView, diffs: DiffsView, p: JsonView, error: JsonView)
    requires
        is_event(event, "session.error"@, p) && p.get("error"@) == Some(error),
        event_translator::sse_event(event, s, diffs).0.session_id.len() > 0,
    ensures
        ({
            let (after, messages) = event_translator::sse_event(event, s, diffs);
            let session = after.session_id;
            let told = reading::first(
                reading::first(reading::within(error.get("data"@), "message"@), error.get("message"@)),
                reading::first(error.get("error"@), error.get("name"@)),
            );
            let shown = reading::within(reading::param(messages[0], "error"@), "message"@);
            &&& messages.len() == 1
            &&& reading::has_method(messages[0], "error"@)
            &&& reading::param(messages[0], "turnId"@) == reading::found(s.turn(session).turn_id)
            &&& reading::param(messages[0], "willRetry"@) == Some(JsonView::Bool(false))
            &&& told matches Some(JsonView::Text(_)) ==> shown == told
            &&& told is None ==> shown == reading::found("unknown error"@)
            &&& after.turn(session).turn_id.len() == 0
        }),
{
    lemma_kinds();
    broadcast use reading::group_reading;
    lemma_event_names();
    lemma_turn_names();
}

/// A status of failure ends the turn too, with the message of the status.
pub proof fn law_failed_status_is_told(event: JsonView, s: StateView, diffs: DiffsView, p: JsonView)
    requires
        is_event(event, "session.status"@, p),
        reading::within(p.get("status"@), "type"@) == reading::found("error"@),
    ensures
        ({
            let (after, messages) = event_translator::sse_event(event, s, diffs);
            let session = after.session_id;
            let told = reading::within(p.get("status"@), "message"@);
            let shown = reading::within(reading::param(messages[0], "error"@), "message"@);
            &&& messages.len() == 1
            &&& reading::has_method(messages[0], "error"@)
            &&& reading::param(messages[0], "turnId"@) == reading::found(s.turn(session).turn_id)
            &&& told matches Some(JsonView::Text(_)) ==> shown == told
            &&& told is None ==> shown == reading::found("unknown error"@)
            &&& after.turn(session).turn_id.len() == 0
        }),
{
    lemma_kinds();
    broadcast use reading::group_reading;
    lemma_event_names();
    lemma_turn_names();
}

// ---------------------------------------------------------------------------
// Requests to the user
// ---------------------------------------------------------------------------

proof fn lemma_ask_names()
    ensures
        ""@.len() == 0,
        ":"@.len() == 1,
        "command"@.len() == 7,
        "command"@[0] == 'c',
        "custom"@.len() == 6,
        "custom"@[0] == 'c',
        "description"@.len() == 11,
        "description"@[0] == 'd',
        "header"@.len() == 6,
        "header"@[0] == 'h',
        "id"@.len() == 2,
        "isOther"@.len() == 7,
        "isOther"@[0] == 'i',
        "itemId"@.len() == 6,
        "itemId"@[0] == 'i',
        "label"@.len() == 5,
        "method"@.len() == 6,
        "method"@[0] == 'm',
        "options"@.len() == 7,
        "options"@[0] == 'o',
        "params"@.len() == 6,
        "params"@[0] == 'p',
        "patterns"@.len() == 8,
        "patterns"@[0] == 'p',
        "permission"@.len() == 10,
        "question"@.len() == 8,
        "question"@[0] == 'q',
        "questions"@.len() == 9,
        "questions"@[0] == 'q',
        "requestID"@.len() == 9,
        "requestID"@[0] == 'r',
        "requestID"@[8] == 'D',
        "requestId"@.len() == 9,
        "requestId"@[0] == 'r',
        "requestId"@[8] == 'd',
        "sessionID"@.len() == 9,
        "sessionID"@[0] == 's',
        "threadId"@.len() == 8,
        "threadId"@[0] == 't',
        "turnId"@.len() == 6,
        "turnId"@[0] == 't',
        "workspaceId"@.len() == 11,
        "workspaceId"@[0] == 'w',
{
    reveal_strlit("");
    reveal_strlit(":");
    reveal_strlit("command");
    reveal_strlit("custom");
    reveal_strlit("description");
    reveal_strlit("header");
    reveal_strlit("id");
    reveal_strlit("isOther");
    reveal_strlit("itemId");
    reveal_strlit("label");
    reveal_strlit("method");
    reveal_strlit("options");
    reveal_strlit("params");
    reveal_strlit("patterns");
    reveal_strlit("permission");
    reveal_strlit("question");
    reveal_strlit("questions");
    reveal_strlit("requestID");
    reveal_strlit("requestId");
    reveal_strlit("sessionID");
    reveal_strlit("threadId");
    reveal_strlit("turnId");
    reveal_strlit("workspaceId");
}

/// A request for a permission is shown under the session and its own identifier, with its kind, and
/// with its patterns, joined by commas, or else its kind as what is asked for.
pub proof fn law_permission_is_asked_for(event: JsonView, s: StateView, diffs: DiffsView, p: JsonView, id: Seq<char>)
    requires
        is_event(event, "permission.asked"@, p),
        p.get("id"@) == reading::found(id),
    ensures
        ({
            let (after, messages) = event_translator::sse_event(event, s, diffs);
            let session = match p.get("sessionID"@) {
                Some(JsonView::Text(x)) => x,
                _ => s.session_id,
            };
            let kind = match p.get("permission"@) {
                Some(JsonView::Text(x)) => x,
                _ => "command"@,
            };
            let asked = reading::param(messages[0], "command"@);
            &&& after == s
            &&& messages.len() == 1
            &&& reading::has_method(messages[0], "codex/requestApproval"@)
            &&& messages[0].get("id"@) == reading::found(session + ":"@ + id)
            &&& reading::param(messages[0], "permission"@) == reading::found(kind)
            &&& p.get("patterns"@) is None ==> asked == Some(JsonView::Array(seq![JsonView::Text(kind)]))
            &&& p.get("patterns"@) matches Some(JsonView::Text(x)) ==> asked == Some(
                JsonView::Array(seq![JsonView::Text(x)]),
            )
            &&& p.get("patterns"@) matches Some(JsonView::Array(items)) ==> asked == Some(
                JsonView::Array(seq![JsonView::Text(text::joined(event_translator::strings_of(items), ", "@))]),
            )
        }),
{
    lemma_kinds();
    broadcast use reading::group_reading;
    lemma_event_names();
    lemma_ask_names();
}

/// The strings of a list are its texts, in their order.
pub proof fn law_strings_keep_their_order(a: Seq<JsonView>, b: Seq<JsonView>)
    ensures
        event_translator::strings_of(a + b) == event_translator::strings_of(a) + event_translator::strings_of(b),
        event_translator::strings_of(Seq::empty()).len() == 0,
    decreases b.len(),
{
    if b.len() == 0 {
        assert(a + b =~= a);
        assert(event_translator::strings_of(a) + event_translator::strings_of(b) =~= event_translator::strings_of(a));
    } else {
        let init = b.drop_last();
        law_strings_keep_their_order(a, init);
        assert((a + b).drop_last() =~= a + init);
        assert((a + b).last() == b.last());
        assert(event_translator::strings_of(a + b)
            =~= event_translator::strings_of(a)
            + event_translator::strings_of(b));
    }
}

/// A text of a list is one of its strings, and another value is none.
pub proof fn law_texts_are_strings(s: Seq<char>, other: JsonView)
    requires
        !(other is Text),
    ensures
        event_translator::strings_of(seq![JsonView::Text(s)]) == seq![s],
        event_translator::strings_of(seq![other]).len() == 0,
{
    reveal_with_fuel(event_translator::strings_of, 2);
    assert(seq![JsonView::Text(s)].drop_last() =~= Seq::<JsonView>::empty());
    assert(seq![other].drop_last() =~= Seq::<JsonView>::empty());
    assert(Seq::<Seq<char>>::empty().push(s) =~= seq![s]);
}

/// Questions are shown under the session and their own identifier, in their thread and turn, under
/// a new item; without an identifier nothing is shown.
pub proof fn law_questions_are_asked(event: JsonView, s: StateView, diffs: DiffsView, p: JsonView)
    requires
        is_event(event, "question.asked"@, p),
    ensures
        ({
            let (after, messages) = event_translator::sse_event(event, s, diffs);
            let id = reading::string_at(p, "id"@);
            let session = match p.get("sessionID"@) {
                Some(JsonView::Text(x)) => x,
                _ => s.session_id,
            };
            let shown = reading::param(messages[0], "questions"@);
            &&& id.len() == 0 ==> after == s && messages.len() == 0
            &&& id.len() > 0 ==> {
                &&& after.session_id == named_session(p.get("sessionID"@), s.session_id)
                &&& s.item_counter < u64::MAX ==> after.item_counter == s.item_counter + 1
                &&& after.session_turns == s.session_turns
                &&& messages.len() == 1
                &&& reading::has_method(messages[0], "item/tool/requestUserInput"@)
                &&& messages[0].get("id"@) == reading::found(session + ":"@ + id)
                &&& all_about(messages, after.session_id)
                &&& reading::param(messages[0], "turnId"@) == reading::found(s.turn(after.session_id).turn_id)
                &&& reading::param(messages[0], "itemId"@) == reading::found(session_state::item_id(s.item_counter))
                &&& match p.get("questions"@) {
                    Some(JsonView::Array(items)) => {
                        &&& shown matches Some(JsonView::Array(entries)) && entries.len() == items.len()
                        &&& forall|i: int|
                            0 <= i < items.len() ==> asks(#[trigger] (shown->0->Array_0)[i], i, items[i])
                    },
                    _ => shown == Some(JsonView::Array(Seq::empty())),
                }
            }
        }),
{
    lemma_kinds();
    if reading::string_at(p, "id"@).len() > 0 {
        assert forall|i: int, question: JsonView| asks(
            #[trigger] event_translator::question_entry(i, question),
            i,
            question,
        ) by {
            lemma_question_asks(i, question);
        }
        lemma_question_is_asked(p, s);
        let items = event_translator::items_of(p.get("questions"@));
        assert(items.len() == 0 ==> event_translator::question_entries(items) =~= Seq::<JsonView>::empty());
    } else {
        lemma_ask_names();
    }
}

proof fn lemma_question_is_asked(p: JsonView, s: StateView)
    requires
        reading::string_at(p, "id"@).len() > 0,
    ensures
        ({
            let (after, messages) = event_translator::question_asked(p, s);
            let session = match p.get("sessionID"@) {
                Some(JsonView::Text(x)) => x,
                _ => s.session_id,
            };
            &&& after.session_id == named_session(p.get("sessionID"@), s.session_id)
            &&& s.item_counter < u64::MAX ==> after.item_counter == s.item_counter + 1
            &&& after.session_turns == s.session_turns
            &&& messages.len() == 1
            &&& reading::has_method(messages[0], "item/tool/requestUserInput"@)
            &&& messages[0].get("id"@) == reading::found(session + ":"@ + reading::string_at(p, "id"@))
            &&& reading::param(messages[0], "threadId"@) == reading::found(after.session_id)
            &&& reading::param(messages[0], "turnId"@) == reading::found(s.turn(after.session_id).turn_id)
            &&& reading::param(messages[0], "itemId"@) == reading::found(session_state::item_id(s.item_counter))
            &&& reading::param(messages[0], "questions"@) == Some(
                JsonView::Array(
                    event_translator::question_entries(event_translator::items_of(p.get("questions"@))),
                ),
            )
        }),
{
    broadcast use reading::group_reading;
    lemma_ask_names();
}

/// Whether an entry asks a question: under its place, with its header, its text and its options,
/// and with an answer of the user's own unless the question says otherwise.
pub open spec fn asks(entry: JsonView, place: int, question: JsonView) -> bool {
    &&& entry.get("id"@) == reading::found(text::decimal(place as nat))
    &&& entry.get("header"@) == reading::found(reading::string_at(question, "header"@))
    &&& entry.get("question"@) == reading::found(reading::string_at(question, "question"@))
    &&& entry.get("isOther"@) == Some(JsonView::Bool(question.get("custom"@) != Some(JsonView::Bool(false))))
    &&& match question.get("options"@) {
        Some(JsonView::Array(options)) => {
            &&& entry.get("options"@) matches Some(JsonView::Array(shown)) && shown.len() == options.len()
            &&& forall|k: int|
                0 <= k < options.len() ==> {
                    let shown = #[trigger] (entry.get("options"@)->0->Array_0)[k];
                    &&& shown.get("label"@) == reading::found(reading::string_at(options[k], "label"@))
                    &&& shown.get("description"@) == reading::found(reading::string_at(options[k], "description"@))
                }
        },
        _ => entry.get("options"@) == Some(JsonView::Array(Seq::empty())),
    }
}

proof fn lemma_question_asks(i: int, question: JsonView)
    ensures
        asks(event_translator::question_entry(i, question), i, question),
{
    broadcast use reading::group_reading;
    lemma_ask_names();
    assert(""@ =~= Seq::<char>::empty());
    let entry = event_translator::question_entry(i, question);
    let options = event_translator::items_of(question.get("options"@));
    assert(entry.get("options"@) == Some(JsonView::Array(event_translator::option_entries(options))));
    assert(options.len() == 0 ==> event_translator::option_entries(options) =~= Seq::<JsonView>::empty());
}

/// The news that questions were answered or rejected names the session and the request.
pub proof fn law_answered_question_is_told_of(event: JsonView, s: StateView, diffs: DiffsView, p: JsonView)
    requires
        is_event(event, "question.replied"@, p) || is_event(event, "question.rejected"@, p),
    ensures
        ({
            let (after, messages) = event_translator::sse_event(event, s, diffs);
            let session = reading::string_at(p, "sessionID"@);
            let request = reading::string_at(p, "requestID"@);
            &&& after == s
            &&& request.len() == 0 ==> messages.len() == 0
            &&& request.len() > 0 ==> {
                &&& messages.len() == 1
                &&& reading::has_method(messages[0], "item/tool/userInputCompleted"@)
                &&& reading::param(messages[0], "requestId"@) == reading::found(session + ":"@ + request)
                &&& reading::param(messages[0], "workspaceId"@) == reading::found(session)
            }
        }),
{
    lemma_kinds();
    broadcast use reading::group_reading;
    lemma_event_names();
    lemma_ask_names();
    assert(""@ =~= Seq::<char>::empty());
}

// ---------------------------------------------------------------------------
// Todo lists
// ---------------------------------------------------------------------------

proof fn lemma_todo_names()
    ensures
        ""@.len() == 0,
        "cancelled"@.len() == 9,
        "cancelled"@[0] == 'c',
        "cancelled"@[1] == 'a',
        "completed"@.len() == 9,
        "completed"@[0] == 'c',
        "completed"@[1] == 'o',
        "content"@.len() == 7,
        "content"@[0] == 'c',
        "inProgress"@.len() == 10,
        "in_progress"@.len() == 11,
        "medium"@.len() == 6,
        "medium"@[0] == 'm',
        "pending"@.len() == 7,
        "pending"@[0] == 'p',
        "priority"@.len() == 8,
        "sessionID"@.len() == 9,
        "sessionID"@[0] == 's',
        "sessionID"@[8] == 'D',
        "sessionId"@.len() == 9,
        "sessionId"@[0] == 's',
        "sessionId"@[8] == 'd',
        "status"@.len() == 6,
        "status"@[0] == 's',
        "step"@.len() == 4,
        "todos"@.len() == 5,
{
    reveal_strlit("");
    reveal_strlit("cancelled");
    reveal_strlit("completed");
    reveal_strlit("content");
    reveal_strlit("inProgress");
    reveal_strlit("in_progress");
    reveal_strlit("medium");
    reveal_strlit("pending");
    reveal_strlit("priority");
    reveal_strlit("sessionID");
    reveal_strlit("sessionId");
    reveal_strlit("status");
    reveal_strlit("step");
    reveal_strlit("todos");
}

/// A changed todo list is the plan of the thread that it names, or else of the active one, in the
/// turn of that thread.
pub proof fn law_todos_are_the_plan(event: JsonView, s: StateView, diffs: DiffsView, p: JsonView)
    requires
        is_event(event, "todo.updated"@, p),
    ensures
        ({
            let (after, messages) = event_translator::sse_event(event, s, diffs);
            let thread = named_session(reading::first(p.get("sessionID"@), p.get("sessionId"@)), s.session_id);
            &&& after == s
            &&& messages.len() == 1
            &&& reading::has_method(messages[0], "turn/plan/updated"@)
            &&& all_about(messages, thread)
            &&& reading::param(messages[0], "turnId"@) == reading::found(s.turn(thread).turn_id)
            &&& p.get("todos"@) matches Some(JsonView::Array(items)) ==> reading::param(messages[0], "plan"@) == Some(
                JsonView::Array(tool_items::plan_steps(items)),
            )
            &&& p.get("todos"@) is None ==> reading::param(messages[0], "plan"@) == Some(JsonView::Array(Seq::empty()))
        }),
{
    lemma_kinds();
    let thread = named_session(reading::first(p.get("sessionID"@), p.get("sessionId"@)), s.session_id);
    let todos = match p.get("todos"@) {
        Some(todos) => todos,
        None => JsonView::Array(Seq::empty()),
    };
    lemma_plan_reads(thread, s.turn(thread).turn_id, todos);
}

/// The steps of a plan are those of the todo list, one by one, in their order.
pub proof fn law_steps_keep_their_order(a: Seq<JsonView>, b: Seq<JsonView>)
    ensures
        tool_items::plan_steps(a + b) == tool_items::plan_steps(a) + tool_items::plan_steps(b),
        tool_items::plan_steps(Seq::empty()).len() == 0,
    decreases b.len(),
{
    if b.len() == 0 {
        assert(a + b =~= a);
        assert(tool_items::plan_steps(a) + tool_items::plan_steps(b) =~= tool_items::plan_steps(a));
    } else {
        let init = b.drop_last();
        law_steps_keep_their_order(a, init);
        assert((a + b).drop_last() =~= a + init);
        assert((a + b).last() == b.last());
        assert(tool_items::plan_steps(a + b) =~= tool_items::plan_steps(a) + tool_items::plan_steps(b));
    }
}

/// The todos of an item are those of the tool, one by one, in their order.
pub proof fn law_todos_keep_their_order(a: Seq<JsonView>, b: Seq<JsonView>)
    ensures
        tool_items::todo_items(a + b) == tool_items::todo_items(a) + tool_items::todo_items(b),
        tool_items::todo_items(Seq::empty()).len() == 0,
    decreases b.len(),
{
    if b.len() == 0 {
        assert(a + b =~= a);
        assert(tool_items::todo_items(a) + tool_items::todo_items(b) =~= tool_items::todo_items(a));
    } else {
        let init = b.drop_last();
        law_todos_keep_their_order(a, init);
        assert((a + b).drop_last() =~= a + init);
        assert((a + b).last() == b.last());
        assert(tool_items::todo_items(a + b) =~= tool_items::todo_items(a) + tool_items::todo_items(b));
    }
}

/// A todo is a step of the plan and an entry of the item under its text: what is in progress,
/// completed or cancelled is shown as such, and what says nothing is pending. A todo without a text
/// is neither.
pub proof fn law_todo_is_shown(todo: JsonView)
    ensures
        match todo.get("content"@) {
            Some(JsonView::Text(content)) => {
                let status = match todo.get("status"@) {
                    Some(JsonView::Text(x)) => x,
                    _ => "pending"@,
                };
                let steps = tool_items::plan_steps(seq![todo]);
                let items = tool_items::todo_items(seq![todo]);
                &&& steps.len() == 1 && items.len() == 1
                &&& steps[0].get("step"@) == reading::found(content)
                &&& status == "completed"@ || status == "cancelled"@ ==> steps[0].get("status"@) == reading::found(
                    "completed"@,
                )
                &&& status == "in_progress"@ ==> steps[0].get("status"@) == reading::found("inProgress"@)
                &&& status != "completed"@ && status != "cancelled"@ && status != "in_progress"@ ==> steps[0].get(
                    "status"@,
                ) == reading::found("pending"@)
                &&& items[0].get("content"@) == reading::found(content)
                &&& items[0].get("status"@) == reading::found(status)
                &&& todo.get("priority"@) matches Some(JsonView::Text(x)) ==> items[0].get("priority"@)
                    == reading::found(x)
                &&& todo.get("priority"@) is None ==> items[0].get("priority"@) == reading::found("medium"@)
            },
            _ => tool_items::plan_steps(seq![todo]).len() == 0 && tool_items::todo_items(seq![todo]).len() == 0,
        },
{
    broadcast use reading::group_reading;
    lemma_todo_names();
    reveal_with_fuel(tool_items::plan_steps, 2);
    reveal_with_fuel(tool_items::todo_items, 2);
    assert(seq![todo].drop_last() =~= Seq::<JsonView>::empty());
}

/// Events of other kinds, and values without a kind, give no message and change nothing.
pub proof fn law_other_events_do_nothing(event: JsonView, s: StateView, diffs: DiffsView, kind: Seq<char>)
    requires
        event.get("type"@) == reading::found(kind) || !(event.get("type"@) matches Some(JsonView::Text(_))),
        kind != "message.part.updated"@,
        kind != "message.part.removed"@,
        kind != "message.part.delta"@,
        kind != "message.updated"@,
        kind != "session.created"@,
        kind != "session.updated"@,
        kind != "session.status"@,
        kind != "session.idle"@,
        kind != "session.error"@,
        kind != "permission.asked"@,
        kind != "question.asked"@,
        kind != "question.replied"@,
        kind != "question.rejected"@,
        kind != "todo.updated"@,
    ensures
        event_translator::sse_event(event, s, diffs) == (s, Seq::<JsonView>::empty()),
{
}

} // verus!
