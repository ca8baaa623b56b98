//! Tool parts: each has one item, from its first update to its last.

use vstd::prelude::*;

use crate::event_translator;
use crate::item_laws;
use crate::item_laws::Holder;
use crate::json;
use crate::json::JsonView;
use crate::session_state;
use crate::session_state::StateView;
use crate::text;
use crate::tool_items;
use crate::tool_items::DiffsView;

verus! {

// ---------------------------------------------------------------------------
// What a tool part holds
// ---------------------------------------------------------------------------

/// The item of a tool part of a session.
pub open spec fn tool_held(s: StateView, session_id: Seq<char>, part_id: Seq<char>) -> Option<Seq<char>> {
    item_laws::held(s, session_id, Holder::Tool(part_id))
}

/// The kind of an event.
pub open spec fn is_event(event: JsonView, kind: Seq<char>) -> bool {
    event.get_str("type"@) == Some(kind)
}

/// The session that an event about the status of a session makes the active one.
pub open spec fn status_session_of(event: JsonView, s: StateView) -> Seq<char> {
    event_translator::entered(
        s,
        event_translator::status_session(event_translator::properties_of(event)),
    ).session_id
}

/// The status that an event tells.
pub open spec fn status_of(event: JsonView) -> Seq<char> {
    text::text_or(
        json::as_str_of(json::get_of(event_translator::properties_of(event).get("status"@), "type"@)),
        ""@,
    )
}

/// Whether an event starts a turn of a session: it is at work, and no turn of it runs.
pub open spec fn starts_turn(event: JsonView, s: StateView, session_id: Seq<char>) -> bool {
    let status = status_of(event);
    &&& is_event(event, "session.status"@)
    &&& status_session_of(event, s) == session_id
    &&& status == "active"@ || status == "running"@ || status == "busy"@
    &&& s.turn(session_id).turn_id.len() == 0
}

/// Whether an event ends the turn of a session: the session is idle or has failed.
pub open spec fn ends_turn(event: JsonView, s: StateView, session_id: Seq<char>) -> bool {
    &&& status_session_of(event, s) == session_id
    &&& {
        ||| is_event(event, "session.idle"@)
        ||| is_event(event, "session.error"@)
        ||| is_event(event, "session.status"@) && (status_of(event) == "idle"@ || status_of(event) == "error"@)
    }
}

/// Whether an event removes a part of a session.
pub open spec fn removes_part(event: JsonView, s: StateView, session_id: Seq<char>, part_id: Seq<char>) -> bool {
    let p = event_translator::properties_of(event);
    &&& is_event(event, "message.part.removed"@)
    &&& event_translator::entered(s, p.get_str("sessionID"@)).session_id == session_id
    &&& p.get_str("partID"@) == Some(part_id)
}

/// Whether an event leaves a tool part alone: it neither starts nor ends the turn nor removes the
/// part.
pub open spec fn leaves_tool(event: JsonView, s: StateView, session_id: Seq<char>, part_id: Seq<char>) -> bool {
    &&& !starts_turn(event, s, session_id)
    &&& !ends_turn(event, s, session_id)
    &&& !removes_part(event, s, session_id, part_id)
}

/// Whether a tool part that has an item keeps it.
spec fn keeps(s: StateView, after: StateView, session_id: Seq<char>, part_id: Seq<char>) -> bool {
    tool_held(s, session_id, part_id) is Some ==> tool_held(after, session_id, part_id) == tool_held(
        s,
        session_id,
        part_id,
    )
}

proof fn lemma_text_keeps_tools(
    s: StateView,
    named: Option<Seq<char>>,
    full_text: Seq<char>,
    delta: Seq<char>,
    k: Seq<char>,
    part_id: Seq<char>,
)
    ensures
        keeps(s, event_translator::user_text_updated(s, s.session_id, full_text, delta).0, k, part_id),
        keeps(s, event_translator::agent_text_updated(s, s.session_id, named, full_text, delta).0, k, part_id),
        keeps(s, event_translator::reasoning_updated(s, s.session_id, named, full_text, delta).0, k, part_id),
        keeps(s, event_translator::reasoning_summary(s, s.session_id, full_text).0, k, part_id),
{
}

proof fn lemma_deltas_keep_tools(s: StateView, named: Seq<char>, delta: Seq<char>, k: Seq<char>, part_id: Seq<char>)
    ensures
        keeps(s, event_translator::user_chunk(s, s.session_id, delta).0, k, part_id),
        keeps(s, event_translator::reasoning_delta(s, s.session_id, delta).0, k, part_id),
        keeps(s, event_translator::agent_delta(s, s.session_id, named, delta).0, k, part_id),
{
}

proof fn lemma_tool_keeps_tools(
    part: JsonView,
    s: StateView,
    thread_id: Seq<char>,
    diffs: DiffsView,
    k: Seq<char>,
    part_id: Seq<char>,
)
    ensures
        keeps(s, event_translator::tool_part(part, s, thread_id, diffs).0, k, part_id),
{
}

proof fn lemma_part_updated_keeps_tools(p: JsonView, s: StateView, diffs: DiffsView, k: Seq<char>, part_id: Seq<char>)
    ensures
        keeps(s, event_translator::part_updated(p, s, diffs).0, k, part_id),
{
    if p.get("part"@) is Some {
        let part = p.get("part"@)->0;
        let delta = text::text_or(p.get_str("delta"@), ""@);
        let s1 = event_translator::entered(s, part.get_str("sessionID"@));
        let id = part.get_str("id"@);
        lemma_text_keeps_tools(s1, id, text::text_or(part.get_str("text"@), ""@), delta, k, part_id);
        lemma_text_keeps_tools(s1, None, event_translator::subtask_label(part), delta, k, part_id);
        lemma_text_keeps_tools(s1, None, text::text_or(part.get_str("name"@), ""@), delta, k, part_id);
        lemma_tool_keeps_tools(part, s1, s1.session_id, diffs, k, part_id);
    }
}

proof fn lemma_part_delta_keeps_tools(p: JsonView, s: StateView, k: Seq<char>, part_id: Seq<char>)
    ensures
        keeps(s, event_translator::part_delta(p, s).0, k, part_id),
{
    let s1 = event_translator::entered(s, p.get_str("sessionID"@));
    lemma_deltas_keep_tools(
        s1,
        text::text_or(p.get_str("partID"@), ""@),
        text::text_or(p.get_str("delta"@), ""@),
        k,
        part_id,
    );
}

proof fn lemma_session_events_keep_tools(event: JsonView, s: StateView, k: Seq<char>, part_id: Seq<char>)
    requires
        leaves_tool(event, s, k, part_id),
    ensures
        ({
            let p = event_translator::properties_of(event);
            &&& is_event(event, "session.status"@) ==> keeps(s, event_translator::session_status(p, s).0, k, part_id)
            &&& is_event(event, "session.idle"@) ==> keeps(s, event_translator::session_idle(p, s).0, k, part_id)
            &&& is_event(event, "session.error"@) ==> keeps(s, event_translator::session_error(p, s).0, k, part_id)
        }),
{
}

proof fn lemma_removal_keeps_tools(event: JsonView, s: StateView, k: Seq<char>, part_id: Seq<char>)
    requires
        part_id.len() > 0,
        is_event(event, "message.part.removed"@) ==> leaves_tool(event, s, k, part_id),
    ensures
        is_event(event, "message.part.removed"@) ==> keeps(
            s,
            event_translator::part_removed(event_translator::properties_of(event), s).0,
            k,
            part_id,
        ),
{
    reveal_strlit("");
}

proof fn lemma_other_events_keep_tools(p: JsonView, s: StateView, k: Seq<char>, part_id: Seq<char>)
    ensures
        keeps(s, event_translator::message_updated(p, s).0, k, part_id),
        keeps(s, event_translator::session_changed(p, s, true).0, k, part_id),
        keeps(s, event_translator::question_asked(p, s).0, k, part_id),
{
}

/// A tool part that has an item keeps it through every event that neither starts nor ends the turn
/// nor removes the part.
pub proof fn law_tool_part_keeps_its_item(
    event: JsonView,
    s: StateView,
    diffs: DiffsView,
    session_id: Seq<char>,
    part_id: Seq<char>,
)
    requires
        part_id.len() > 0,
        tool_held(s, session_id, part_id) is Some,
        leaves_tool(event, s, session_id, part_id),
    ensures
        tool_held(event_translator::sse_event(event, s, diffs).0, session_id, part_id) == tool_held(
            s,
            session_id,
            part_id,
        ),
{
    let p = event_translator::properties_of(event);
    lemma_part_updated_keeps_tools(p, s, diffs, session_id, part_id);
    lemma_part_delta_keeps_tools(p, s, session_id, part_id);
    lemma_session_events_keep_tools(event, s, session_id, part_id);
    lemma_removal_keeps_tools(event, s, session_id, part_id);
    lemma_other_events_keep_tools(p, s, session_id, part_id);
}

/// Beside events, no call takes the item of a tool part away but one that starts or ends the turn,
/// a replay or its boundary, or the removal of the part, in its own session.
pub proof fn law_other_calls_keep_the_tool_item(
    s: StateView,
    session_id: Seq<char>,
    part_id: Seq<char>,
    other_session: Seq<char>,
    other_part: Seq<char>,
    turn_id: Seq<char>,
    h: Holder,
)
    requires
        part_id.len() > 0,
        tool_held(s, session_id, part_id) is Some,
    ensures
        tool_held(s.counted(), session_id, part_id) == tool_held(s, session_id, part_id),
        tool_held(s.with_session(other_session), session_id, part_id) == tool_held(s, session_id, part_id),
        tool_held(s.reset_agent_message_item(other_session), session_id, part_id) == tool_held(
            s,
            session_id,
            part_id,
        ),
        tool_held(item_laws::item_for(s, other_session, h).0, session_id, part_id) == tool_held(
            s,
            session_id,
            part_id,
        ),
        other_session != session_id || other_part != part_id ==> tool_held(
            s.remove_part_mapping(other_session, other_part),
            session_id,
            part_id,
        ) == tool_held(s, session_id, part_id),
        other_session != session_id ==> {
            &&& tool_held(s.start_turn(other_session, turn_id), session_id, part_id) == tool_held(
                s,
                session_id,
                part_id,
            )
            &&& tool_held(s.finish_turn(other_session), session_id, part_id) == tool_held(s, session_id, part_id)
            &&& tool_held(s.prepare_replay(other_session), session_id, part_id) == tool_held(
                s,
                session_id,
                part_id,
            )
        },
        s.session_id != session_id ==> tool_held(
            s.mark_new_replayed_user_message_boundary(),
            session_id,
            part_id,
        ) == tool_held(s, session_id, part_id),
{
}

// ---------------------------------------------------------------------------
// Runs of events
// ---------------------------------------------------------------------------

/// The state after events, each with the diffs that were made for it.
pub open spec fn state_after(s: StateView, events: Seq<(JsonView, DiffsView)>) -> StateView
    decreases events.len(),
{
    if events.len() == 0 {
        s
    } else {
        event_translator::sse_event(
            events.last().0,
            state_after(s, events.drop_last()),
            events.last().1,
        ).0
    }
}

/// Whether no event of a run starts or ends the turn of a session or removes a part of it.
pub open spec fn all_leave_tool(
    s: StateView,
    events: Seq<(JsonView, DiffsView)>,
    session_id: Seq<char>,
    part_id: Seq<char>,
) -> bool
    decreases events.len(),
{
    events.len() > 0 ==> {
        &&& all_leave_tool(s, events.drop_last(), session_id, part_id)
        &&& leaves_tool(events.last().0, state_after(s, events.drop_last()), session_id, part_id)
    }
}

/// A tool part that has an item keeps it through every run of such events.
pub proof fn law_tool_part_keeps_its_item_through_a_run(
    s: StateView,
    events: Seq<(JsonView, DiffsView)>,
    session_id: Seq<char>,
    part_id: Seq<char>,
)
    requires
        part_id.len() > 0,
        tool_held(s, session_id, part_id) is Some,
        all_leave_tool(s, events, session_id, part_id),
    ensures
        tool_held(state_after(s, events), session_id, part_id) == tool_held(s, session_id, part_id),
    decreases events.len(),
{
    if events.len() > 0 {
        let init = events.drop_last();
        law_tool_part_keeps_its_item_through_a_run(s, init, session_id, part_id);
        law_tool_part_keeps_its_item(
            events.last().0,
            state_after(s, init),
            events.last().1,
            session_id,
            part_id,
        );
    }
}

// ---------------------------------------------------------------------------
// What the messages show
// ---------------------------------------------------------------------------

/// The identifier of the item that a message is about.
pub open spec fn shown_item(message: JsonView) -> Option<Seq<char>> {
    let params = message.get("params"@);
    match json::get_of(params, "item"@) {
        Some(item) => item.get_str("id"@),
        None => json::as_str_of(json::get_of(params, "itemId"@)),
    }
}

/// Whether a message gives the turn a plan: it is about the turn, not about an item.
pub open spec fn is_plan(message: JsonView) -> bool {
    message.get_str("method"@) == Some("turn/plan/updated"@)
}

/// Whether every message but a plan is about the given item.
pub open spec fn all_show(messages: Seq<JsonView>, item_id: Seq<char>) -> bool {
    forall|i: int|
        0 <= i < messages.len() && !is_plan(#[trigger] messages[i]) ==> shown_item(messages[i]) == Some(item_id)
}

spec fn starts_with_id(item: JsonView, item_id: Seq<char>) -> bool {
    match item {
        JsonView::Object(entries) => entries.len() > 0 && entries[0] == ("id"@, JsonView::Text(item_id)),
        _ => false,
    }
}

proof fn lemma_and_keeps_id(item: JsonView, item_id: Seq<char>, key: Seq<char>, value: JsonView)
    requires
        starts_with_id(item, item_id),
    ensures
        starts_with_id(item.and(key, value), item_id),
        item.get_str("id"@) == Some(item_id),
        key != "id"@ ==> starts_with_id(item.with(key, value), item_id),
{
    if let JsonView::Object(entries) = item {
        json::lemma_entry_from(entries, key, 0);
    }
}

proof fn lemma_keys()
    ensures
        "command"@ != "id"@,
        "cwd"@ != "id"@,
        "aggregatedOutput"@ != "id"@,
        "changes"@ != "id"@,
        "output"@ != "id"@,
        "prompt"@ != "id"@,
        "agentStatus"@ != "id"@,
{
    reveal_strlit("id");
    reveal_strlit("command");
    reveal_strlit("cwd");
    reveal_strlit("aggregatedOutput");
    reveal_strlit("changes");
    reveal_strlit("output");
    reveal_strlit("prompt");
    reveal_strlit("agentStatus");
    assert("cwd"@.len() == 3 && "id"@.len() == 2);
    assert("command"@.len() == 7 && "aggregatedOutput"@.len() == 16 && "changes"@.len() == 7);
    assert("output"@.len() == 6 && "prompt"@.len() == 6 && "agentStatus"@.len() == 11);
}

proof fn lemma_output_keeps_id(item: JsonView, item_id: Seq<char>, key: Seq<char>, output: Option<Seq<char>>)
    requires
        starts_with_id(item, item_id),
        key != "id"@,
    ensures
        starts_with_id(tool_items::with_output(item, key, output), item_id),
{
    if let Some(s) = output {
        lemma_and_keeps_id(item, item_id, key, JsonView::Text(s));
    }
}

proof fn lemma_tool_item_has_id(
    item_id: Seq<char>,
    item_type: Seq<char>,
    title: Seq<char>,
    status: Seq<char>,
    raw_input: Option<JsonView>,
    output: Option<Seq<char>>,
    diffs: DiffsView,
)
    ensures
        starts_with_id(
            tool_items::tool_item(item_id, item_type, title, status, raw_input, output, None, diffs),
            item_id,
        ),
{
    lemma_keys();
    let base = json::obj().and("id"@, JsonView::Text(item_id));
    let typed = base.and("type"@, JsonView::Text(item_type));
    let item = typed.and("status"@, JsonView::Text(status));
    lemma_and_keeps_id(base, item_id, "type"@, JsonView::Text(item_type));
    lemma_and_keeps_id(typed, item_id, "status"@, JsonView::Text(status));
    if item_type == "commandExecution"@ {
        let words = match raw_input {
            Some(input) => tool_items::command_parts_of(input, title),
            None => tool_items::one_trimmed(title),
        };
        lemma_and_keeps_id(item, item_id, "command"@, json::text_array(words));
        let with_command = if words.len() > 0 {
            item.with("command"@, json::text_array(words))
        } else {
            item
        };
        if let Some(input) = raw_input {
            let cwd = JsonView::Text(tool_items::cwd_of(input));
            lemma_and_keeps_id(with_command, item_id, "cwd"@, cwd);
            lemma_output_keeps_id(with_command.with("cwd"@, cwd), item_id, "aggregatedOutput"@, output);
        }
        lemma_output_keeps_id(with_command, item_id, "aggregatedOutput"@, output);
    } else if item_type == "fileChange"@ {
        let changes = JsonView::Array(tool_items::changes_of(raw_input, diffs));
        lemma_and_keeps_id(item, item_id, "changes"@, changes);
        lemma_output_keeps_id(item.with("changes"@, changes), item_id, "output"@, output);
        lemma_output_keeps_id(item, item_id, "output"@, output);
    }
}

proof fn lemma_task_item_has_id(
    item_id: Seq<char>,
    status: Seq<char>,
    raw_input: Option<JsonView>,
    thread_id: Seq<char>,
)
    ensures
        starts_with_id(tool_items::task_item(item_id, status, raw_input, thread_id), item_id),
{
    lemma_keys();
    let item = json::obj().and("id"@, JsonView::Text(item_id)).and("type"@, JsonView::Text("collabToolCall"@)).and(
        "tool"@,
        JsonView::Text("task"@),
    ).and("status"@, JsonView::Text(status)).and("senderThreadId"@, JsonView::Text(thread_id));
    assert(starts_with_id(item, item_id));
    let prompt = JsonView::Text(tool_items::task_prompt_of(raw_input));
    lemma_and_keeps_id(item, item_id, "prompt"@, prompt);
    if let Some(m) = tool_items::task_agent_status_map_of(status, raw_input) {
        lemma_and_keeps_id(item, item_id, "agentStatus"@, m);
        lemma_and_keeps_id(item.with("prompt"@, prompt), item_id, "agentStatus"@, m);
    }
}

proof fn lemma_item_message_shows(method: Seq<char>, thread_id: Seq<char>, item: JsonView, item_id: Seq<char>)
    requires
        starts_with_id(item, item_id),
    ensures
        shown_item(event_translator::item_message(method, thread_id, item)) == Some(item_id),
{
    reveal_strlit("method");
    reveal_strlit("params");
    reveal_strlit("threadId");
    reveal_strlit("item");
    assert("method"@[0] == 'm' && "params"@[0] == 'p');
    assert("threadId"@.len() == 8 && "item"@.len() == 4);
    reveal_with_fuel(json::entry_from, 3);
    lemma_and_keeps_id(item, item_id, "id"@, JsonView::Null);
}

proof fn lemma_output_delta_shows(method: Seq<char>, thread_id: Seq<char>, item_id: Seq<char>, delta: Seq<char>)
    ensures
        shown_item(
            event_translator::message(
                method,
                json::obj().and("threadId"@, JsonView::Text(thread_id)).and("itemId"@, JsonView::Text(item_id)).and(
                    "delta"@,
                    JsonView::Text(delta),
                ),
            ),
        ) == Some(item_id),
{
    reveal_strlit("method");
    reveal_strlit("params");
    reveal_strlit("threadId");
    reveal_strlit("item");
    reveal_strlit("itemId");
    reveal_strlit("delta");
    assert("method"@[0] == 'm' && "params"@[0] == 'p');
    assert("threadId"@.len() == 8 && "item"@.len() == 4 && "itemId"@.len() == 6 && "delta"@.len() == 5);
    reveal_with_fuel(json::entry_from, 4);
}

proof fn lemma_plan_is_plan(thread_id: Seq<char>, turn_id: Seq<char>, todos: JsonView)
    ensures
        is_plan(tool_items::plan_event(thread_id, turn_id, todos)),
{
}

proof fn lemma_plain_messages_show(
    item_id: Seq<char>,
    thread_id: Seq<char>,
    tool_name: Seq<char>,
    status: Seq<char>,
    tool_state: JsonView,
    diffs: DiffsView,
)
    ensures
        all_show(
            event_translator::plain_tool_messages(item_id, thread_id, tool_name, status, tool_state, diffs),
            item_id,
        ),
{
    let item_type = tool_items::item_type_of(tool_name);
    let raw_input = tool_state.get("input"@);
    let output = Some(text::text_or(tool_state.get_str("output"@), ""@));
    if event_translator::is_live(status) {
        lemma_tool_item_has_id(item_id, item_type, tool_name, "in_progress"@, raw_input, None, diffs);
        lemma_item_message_shows(
            "item/started"@,
            thread_id,
            tool_items::tool_item(item_id, item_type, tool_name, "in_progress"@, raw_input, None, None, diffs),
            item_id,
        );
        if let Some(input) = raw_input {
            let delta = tool_items::delta_text_of(tool_name, input, tool_items::notation_of(input), diffs);
            lemma_output_delta_shows("item/fileChange/outputDelta"@, thread_id, item_id, delta);
            lemma_output_delta_shows("item/commandExecution/outputDelta"@, thread_id, item_id, delta);
        }
    } else if event_translator::is_over(status) {
        let shown = if status == "completed"@ {
            "completed"@
        } else {
            "failed"@
        };
        lemma_tool_item_has_id(item_id, item_type, tool_name, shown, raw_input, output, diffs);
        lemma_item_message_shows(
            "item/completed"@,
            thread_id,
            tool_items::tool_item(item_id, item_type, tool_name, shown, raw_input, output, None, diffs),
            item_id,
        );
    }
}

proof fn lemma_started_or_completed_shows(thread_id: Seq<char>, item: JsonView, item_id: Seq<char>)
    requires
        starts_with_id(item, item_id),
    ensures
        shown_item(event_translator::item_message("item/started"@, thread_id, item)) == Some(item_id),
        shown_item(event_translator::item_message("item/completed"@, thread_id, item)) == Some(item_id),
{
    lemma_item_message_shows("item/started"@, thread_id, item, item_id);
    lemma_item_message_shows("item/completed"@, thread_id, item, item_id);
}

proof fn lemma_tool_messages_show(
    item_id: Seq<char>,
    thread_id: Seq<char>,
    turn_id: Seq<char>,
    tool_name: Seq<char>,
    status: Seq<char>,
    tool_state: JsonView,
    diffs: DiffsView,
)
    ensures
        all_show(
            event_translator::tool_messages(item_id, thread_id, turn_id, tool_name, status, tool_state, diffs),
            item_id,
        ),
{
    let raw_input = tool_state.get("input"@);
    if tool_name == "task"@ {
        let shown = event_translator::task_item_status(status);
        lemma_task_item_has_id(item_id, shown, raw_input, thread_id);
        lemma_started_or_completed_shows(
            thread_id,
            tool_items::task_item(item_id, shown, raw_input, thread_id),
            item_id,
        );
    } else if tool_name == "todowrite"@ {
        let shown = if event_translator::is_live(status) {
            "pending"@
        } else {
            "completed"@
        };
        let todos = tool_items::todo_list_of(raw_input, tool_state);
        let item = json::obj().and("id"@, JsonView::Text(item_id)).and("type"@, JsonView::Text("todowrite"@)).and(
            "status"@,
            JsonView::Text(shown),
        ).and("todos"@, todos);
        lemma_started_or_completed_shows(thread_id, item, item_id);
        lemma_plan_is_plan(thread_id, turn_id, todos);
    } else if tool_items::item_type_of(tool_name) == "explore"@ {
        let title = text::text_or(tool_state.get_str("title"@), ""@);
        let shown = if event_translator::is_live(status) {
            "exploring"@
        } else {
            "explored"@
        };
        let item = json::obj().and("id"@, JsonView::Text(item_id)).and("type"@, JsonView::Text("explore"@)).and(
            "status"@,
            JsonView::Text(shown),
        ).and("entries"@, JsonView::Array(seq![tool_items::explore_entry(tool_name, title, raw_input)]));
        lemma_started_or_completed_shows(thread_id, item, item_id);
    } else {
        lemma_plain_messages_show(item_id, thread_id, tool_name, status, tool_state, diffs);
    }
}

/// Every message for an update of a tool part is about one item, but for a plan. It is the item
/// that the part has, or one of its own that it is given where it has none, and the part has it
/// after the update.
pub proof fn law_tool_update_shows_one_item(
    part: JsonView,
    s: StateView,
    session_id: Seq<char>,
    diffs: DiffsView,
    part_id: Seq<char>,
)
    requires
        part.get("state"@) is Some,
        part.get_str("id"@) == Some(part_id),
        part_id.len() > 0,
    ensures
        ({
            let (after, messages) = event_translator::tool_part(part, s, session_id, diffs);
            let item_id = match tool_held(s, session_id, part_id) {
                Some(id) => id,
                None => session_state::item_id(s.item_counter),
            };
            &&& tool_held(after, session_id, part_id) == Some(item_id)
            &&& all_show(messages, item_id)
        }),
{
    let tool_state = part.get("state"@)->0;
    let item_id = s.tool_call_item(session_id, part_id).1;
    lemma_tool_messages_show(
        item_id,
        session_id,
        s.turn(session_id).turn_id,
        text::text_or(part.get_str("tool"@), "unknown"@),
        text::text_or(tool_state.get_str("status"@), "pending"@),
        tool_state,
        diffs,
    );
}

/// Every update of a tool part within a turn shows the item that its first update showed, whatever
/// events stand between the two that neither start nor end the turn nor remove the part.
pub proof fn law_tool_part_shows_one_item_in_a_turn(
    first: JsonView,
    s: StateView,
    session_id: Seq<char>,
    first_diffs: DiffsView,
    events: Seq<(JsonView, DiffsView)>,
    later: JsonView,
    later_diffs: DiffsView,
    part_id: Seq<char>,
)
    requires
        first.get("state"@) is Some,
        later.get("state"@) is Some,
        first.get_str("id"@) == Some(part_id),
        later.get_str("id"@) == Some(part_id),
        part_id.len() > 0,
        all_leave_tool(
            event_translator::tool_part(first, s, session_id, first_diffs).0,
            events,
            session_id,
            part_id,
        ),
    ensures
        ({
            let (s1, before) = event_translator::tool_part(first, s, session_id, first_diffs);
            let (s2, after) = event_translator::tool_part(
                later,
                state_after(s1, events),
                session_id,
                later_diffs,
            );
            let item_id = tool_held(s1, session_id, part_id)->0;
            &&& tool_held(s1, session_id, part_id) is Some
            &&& tool_held(s2, session_id, part_id) == Some(item_id)
            &&& all_show(before, item_id)
            &&& all_show(after, item_id)
        }),
{
    let s1 = event_translator::tool_part(first, s, session_id, first_diffs).0;
    law_tool_update_shows_one_item(first, s, session_id, first_diffs, part_id);
    law_tool_part_keeps_its_item_through_a_run(s1, events, session_id, part_id);
    law_tool_update_shows_one_item(later, state_after(s1, events), session_id, later_diffs, part_id);
}

/// Two tool parts of one session, or of two, never show the same item.
pub proof fn law_two_tool_parts_show_two_items(
    one: JsonView,
    s: StateView,
    session_id: Seq<char>,
    one_diffs: DiffsView,
    other: JsonView,
    other_session: Seq<char>,
    other_diffs: DiffsView,
    part_id: Seq<char>,
    other_part: Seq<char>,
)
    requires
        item_laws::ids_are_own(s),
        s.item_counter < u64::MAX - 1,
        one.get("state"@) is Some,
        other.get("state"@) is Some,
        one.get_str("id"@) == Some(part_id),
        other.get_str("id"@) == Some(other_part),
        part_id.len() > 0,
        other_part.len() > 0,
        part_id != other_part || session_id != other_session,
    ensures
        ({
            let (s1, before) = event_translator::tool_part(one, s, session_id, one_diffs);
            let (s2, after) = event_translator::tool_part(other, s1, other_session, other_diffs);
            let item_id = tool_held(s2, session_id, part_id)->0;
            let other_id = tool_held(s2, other_session, other_part)->0;
            &&& tool_held(s2, session_id, part_id) is Some
            &&& tool_held(s2, other_session, other_part) is Some
            &&& item_id != other_id
            &&& all_show(before, item_id)
            &&& all_show(after, other_id)
        }),
{
    let s1 = event_translator::tool_part(one, s, session_id, one_diffs).0;
    let s2 = event_translator::tool_part(other, s1, other_session, other_diffs).0;
    law_tool_update_shows_one_item(one, s, session_id, one_diffs, part_id);
    law_tool_update_shows_one_item(other, s1, other_session, other_diffs, other_part);
    lemma_tool_keeps_tools(other, s1, other_session, other_diffs, session_id, part_id);
    item_laws::lemma_tool_keeps_ids_own(one, s, session_id, one_diffs);
    item_laws::lemma_tool_keeps_ids_own(other, s1, other_session, other_diffs);
}

} // verus!
