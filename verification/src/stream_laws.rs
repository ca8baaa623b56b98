//! What holds of the translation of any run of events.

use vstd::prelude::*;

use crate::event_translator;
use crate::json;
use crate::json::JsonView;
use crate::session_state;
use crate::session_state::StateView;
use crate::text;
use crate::tool_items;
use crate::tool_items::DiffsView;

verus! {

// ---------------------------------------------------------------------------
// Identifiers
// ---------------------------------------------------------------------------

pub proof fn lemma_decimal_value(n: nat)
    ensures
        text::decimal(n).len() > 0,
        text::digits_value(text::decimal(n)) == n,
    decreases n,
{
    if n < 10 {
        assert(text::decimal(n).drop_last() =~= Seq::<char>::empty());
        assert(text::digits_value(Seq::<char>::empty()) == 0);
        assert(text::decimal(n).last() as u32 == 48 + n);
    } else {
        lemma_decimal_value(n / 10);
        assert(text::decimal(n).drop_last() =~= text::decimal(n / 10));
        assert(text::decimal(n).last() as u32 == 48 + n % 10);
    }
}

/// Two numbers with the same decimal notation are equal.
pub proof fn law_decimal_is_injective(a: nat, b: nat)
    requires
        text::decimal(a) == text::decimal(b),
    ensures
        a == b,
{
    lemma_decimal_value(a);
    lemma_decimal_value(b);
}

/// Items with different numbers have different identifiers.
pub proof fn law_item_ids_are_distinct(a: u64, b: u64)
    requires
        a != b,
    ensures
        session_state::item_id(a) != session_state::item_id(b),
{
    if session_state::item_id(a) == session_state::item_id(b) {
        let p = "item_"@;
        let x = text::decimal(a as nat);
        let y = text::decimal(b as nat);
        assert((p + x).skip(p.len() as int) =~= x);
        assert((p + y).skip(p.len() as int) =~= y);
        law_decimal_is_injective(a as nat, b as nat);
    }
}

/// A step of the translation makes at most two identifiers and leaves another session and the context
/// windows alone.
pub open spec fn is_small_update(s: StateView, after: StateView, other: Seq<char>) -> bool {
    &&& after.model_context_windows == s.model_context_windows
    &&& s.item_counter <= u64::MAX - 2 ==> s.item_counter <= after.item_counter <= s.item_counter + 2
    &&& other != after.session_id ==> session_state::lookup(after.session_turns, other) == session_state::lookup(
        s.session_turns,
        other,
    )
}

/// A step of the translation that leaves the roles of messages alone, too.
pub open spec fn is_small_step(s: StateView, after: StateView, other: Seq<char>) -> bool {
    &&& is_small_update(s, after, other)
    &&& after.message_roles == s.message_roles
}

proof fn lemma_text_steps_are_small(
    s: StateView,
    part_id: Option<Seq<char>>,
    full_text: Seq<char>,
    delta: Seq<char>,
    other: Seq<char>,
)
    ensures
        is_small_step(s, event_translator::user_text_updated(s, s.session_id, full_text, delta).0, other),
        is_small_step(s, event_translator::agent_text_updated(s, s.session_id, part_id, full_text, delta).0, other),
{
}

proof fn lemma_reasoning_steps_are_small(
    s: StateView,
    part_id: Option<Seq<char>>,
    full_text: Seq<char>,
    delta: Seq<char>,
    other: Seq<char>,
)
    ensures
        is_small_step(s, event_translator::reasoning_updated(s, s.session_id, part_id, full_text, delta).0, other),
        is_small_step(s, event_translator::reasoning_summary(s, s.session_id, full_text).0, other),
{
}

proof fn lemma_tool_step_is_small(part: JsonView, s: StateView, diffs: DiffsView, other: Seq<char>)
    ensures
        is_small_step(s, event_translator::tool_part(part, s, s.session_id, diffs).0, other),
{
}

#[verifier::rlimit(50)]
proof fn lemma_part_updated_is_small(p: JsonView, s: StateView, diffs: DiffsView, other: Seq<char>)
    ensures
        is_small_step(s, event_translator::part_updated(p, s, diffs).0, other),
{
    if p.get("part"@) is Some {
        let part = p.get("part"@)->0;
        let delta = text::text_or(p.get_str("delta"@), ""@);
        let full_text = text::text_or(part.get_str("text"@), ""@);
        let s1 = event_translator::entered(s, part.get_str("sessionID"@));
        lemma_text_steps_are_small(s1, part.get_str("id"@), full_text, delta, other);
        lemma_reasoning_steps_are_small(s1, part.get_str("id"@), full_text, delta, other);
        lemma_reasoning_steps_are_small(s1, None, event_translator::subtask_label(part), delta, other);
        lemma_reasoning_steps_are_small(s1, None, text::text_or(part.get_str("name"@), ""@), delta, other);
        lemma_tool_step_is_small(part, s1, diffs, other);
    }
}

proof fn lemma_deltas_are_small(s: StateView, part_id: Seq<char>, delta: Seq<char>, other: Seq<char>)
    ensures
        is_small_step(s, event_translator::user_chunk(s, s.session_id, delta).0, other),
        is_small_step(s, event_translator::reasoning_delta(s, s.session_id, delta).0, other),
        is_small_step(s, event_translator::agent_delta(s, s.session_id, part_id, delta).0, other),
{
}

proof fn lemma_part_delta_is_small(p: JsonView, s: StateView, other: Seq<char>)
    ensures
        is_small_step(s, event_translator::part_delta(p, s).0, other),
        is_small_step(s, event_translator::part_removed(p, s).0, other),
{
    let s1 = event_translator::entered(s, p.get_str("sessionID"@));
    let part_id = text::text_or(p.get_str("partID"@), ""@);
    lemma_deltas_are_small(s1, part_id, text::text_or(p.get_str("delta"@), ""@), other);
    lemma_removal_is_small(s1, part_id, other);
}

proof fn lemma_removal_is_small(s: StateView, part_id: Seq<char>, other: Seq<char>)
    ensures
        is_small_step(s, s.remove_part_mapping(s.session_id, part_id), other),
{
}

proof fn lemma_session_status_is_small(p: JsonView, s: StateView, other: Seq<char>)
    ensures
        is_small_step(s, event_translator::session_status(p, s).0, other),
        is_small_step(s, event_translator::session_idle(p, s).0, other),
        is_small_step(s, event_translator::session_error(p, s).0, other),
{
}

proof fn lemma_other_steps_are_small(p: JsonView, s: StateView, other: Seq<char>)
    ensures
        is_small_update(s, event_translator::message_updated(p, s).0, other),
        is_small_step(s, event_translator::session_changed(p, s, true).0, other),
        is_small_step(s, event_translator::question_asked(p, s).0, other),
{
}

#[verifier::rlimit(50)]
pub proof fn lemma_event_is_small(event: JsonView, s: StateView, diffs: DiffsView, other: Seq<char>)
    ensures
        is_small_update(s, event_translator::sse_event(event, s, diffs).0, other),
        event.get_str("type"@) != Some("message.updated"@) ==> is_small_step(
            s,
            event_translator::sse_event(event, s, diffs).0,
            other,
        ),
{
    let p = event_translator::properties_of(event);
    lemma_part_updated_is_small(p, s, diffs, other);
    lemma_part_delta_is_small(p, s, other);
    lemma_session_status_is_small(p, s, other);
    lemma_other_steps_are_small(p, s, other);
}

/// The counter never goes back, short of its end: an event makes at most two identifiers, each
/// with a number that no earlier one has.
pub proof fn law_counter_never_goes_back(event: JsonView, s: StateView, diffs: DiffsView)
    requires
        s.item_counter <= u64::MAX - 2,
    ensures
        s.item_counter <= event_translator::sse_event(event, s, diffs).0.item_counter <= s.item_counter + 2,
{
    lemma_event_is_small(event, s, diffs, Seq::empty());
}

// ---------------------------------------------------------------------------
// Turns
// ---------------------------------------------------------------------------

/// The user message of a turn has its identifier from the start of the turn on: either it had one
/// before, which is kept with its text, or it gets the next number, and every identifier made
/// later has a greater one.
pub proof fn law_user_message_id_is_made_first(s: StateView, session_id: Seq<char>, turn_id: Seq<char>)
    requires
        s.item_counter < u64::MAX,
    ensures
        ({
            let before = s.turn(session_id);
            let after = s.start_turn(session_id, turn_id);
            let turn = after.turn(session_id);
            match before.user_message_item_id {
                Some(id) => {
                    &&& turn.user_message_item_id == Some(id)
                    &&& turn.user_message_text == before.user_message_text
                    &&& after.item_counter == s.item_counter
                },
                None => {
                    &&& turn.user_message_item_id == Some(session_state::item_id(s.item_counter))
                    &&& after.item_counter > s.item_counter
                },
            }
        }),
{
}

/// A turn is started once: while it runs, a further sign of activity gives no message and leaves
/// the turn as it is.
pub proof fn law_running_turn_is_not_started_again(properties: JsonView, s: StateView)
    requires
        ({
            let s1 = event_translator::entered(s, event_translator::status_session(properties));
            let status = json::as_str_of(json::get_of(properties.get("status"@), "type"@));
            &&& status == Some("active"@) || status == Some("running"@) || status == Some("busy"@)
            &&& s1.turn(s1.session_id).turn_id.len() > 0
        }),
    ensures
        ({
            let (after, events) = event_translator::session_status(properties, s);
            &&& events == Seq::<JsonView>::empty()
            &&& after.session_turns == s.session_turns
            &&& after.item_counter == s.item_counter
        }),
{
}

/// When a session goes idle its turn is over: nothing of it is left for the next turn.
pub proof fn law_idle_ends_the_turn(s: StateView)
    ensures
        event_translator::went_idle(s).0.turn(s.session_id) == session_state::blank_turn(),
{
}

/// When a session fails its turn is over: nothing of it is left for the next turn.
pub proof fn law_error_ends_the_turn(properties: JsonView, s: StateView)
    ensures
        ({
            let s1 = event_translator::entered(s, event_translator::status_session(properties));
            let after = event_translator::session_error(properties, s).0;
            s1.session_id.len() > 0 ==> after.turn(s1.session_id) == session_state::blank_turn()
        }),
{
}

// ---------------------------------------------------------------------------
// Sessions
// ---------------------------------------------------------------------------

/// Sessions do not disturb each other: an event changes the turn of the session that it leaves
/// active, and of no other.
pub proof fn law_other_sessions_are_untouched(event: JsonView, s: StateView, diffs: DiffsView, other: Seq<char>)
    requires
        other != event_translator::sse_event(event, s, diffs).0.session_id,
    ensures
        session_state::lookup(
            event_translator::sse_event(event, s, diffs).0.session_turns,
            other,
        ) == session_state::lookup(s.session_turns, other),
{
    lemma_event_is_small(event, s, diffs, other);
}

/// No event changes a context window, and only an update of a message tells a role.
pub proof fn law_windows_and_roles_are_kept(event: JsonView, s: StateView, diffs: DiffsView)
    ensures
        event_translator::sse_event(event, s, diffs).0.model_context_windows == s.model_context_windows,
        event.get_str("type"@) != Some("message.updated"@) ==> event_translator::sse_event(
            event,
            s,
            diffs,
        ).0.message_roles == s.message_roles,
{
    lemma_event_is_small(event, s, diffs, s.session_id);
}

// ---------------------------------------------------------------------------
// Items of a turn
// ---------------------------------------------------------------------------

/// Text of the agent that follows a tool call starts a new message.
pub proof fn law_tool_end_ends_the_agent_message(
    part: JsonView,
    s: StateView,
    thread_id: Seq<char>,
    diffs: DiffsView,
)
    requires
        part.get("state"@) is Some,
        event_translator::is_over(text::text_or((part.get("state"@)->0).get_str("status"@), "pending"@)),
    ensures
        ({
            let after = event_translator::tool_part(part, s, thread_id, diffs).0;
            &&& after.turn(thread_id).agent_message_item_id is None
            &&& after.agent_message_item(thread_id).1 == session_state::item_id(after.item_counter)
        }),
{
}

/// An agent message has one item: its identifier stays the same from one chunk to the next.
pub proof fn law_agent_message_keeps_its_item(s: StateView, thread_id: Seq<char>)
    ensures
        ({
            let (s1, id) = s.agent_message_item(thread_id);
            s1.agent_message_item(thread_id) == (s1, id)
        }),
{
    let (s1, id) = s.agent_message_item(thread_id);
    assert(s1.agent_message_item(thread_id).0.session_turns =~= s1.session_turns);
}

// ---------------------------------------------------------------------------
// Chunks and parts
// ---------------------------------------------------------------------------

/// Chunks of a user message merge: the second chunk goes into the item of the first, behind its
/// text.
pub proof fn law_user_chunks_merge(s: StateView, thread_id: Seq<char>, first: Seq<char>, second: Seq<char>)
    ensures
        ({
            let s1 = event_translator::user_chunk(s, thread_id, first).0;
            let (s2, events) = event_translator::user_chunk(s1, thread_id, second);
            let id = s1.turn(thread_id).user_message_item_id;
            &&& id is Some
            &&& s2.turn(thread_id).user_message_item_id == id
            &&& s2.turn(thread_id).user_message_text == s.turn(thread_id).user_message_text + first + second
            &&& events == seq![
                event_translator::item_message(
                    "item/completed"@,
                    thread_id,
                    event_translator::user_message_item(
                        id->0,
                        event_translator::text_content(s.turn(thread_id).user_message_text + first + second),
                    ),
                )
            ]
        }),
{
}

/// A part that was removed is forgotten: a stream of it is ended, and a tool part of that
/// identifier gets a new item.
pub proof fn law_removed_part_is_forgotten(s: StateView, thread_id: Seq<char>, part_id: Seq<char>)
    requires
        part_id.len() > 0,
    ensures
        ({
            let before = s.turn(thread_id);
            let after = s.remove_part_mapping(thread_id, part_id);
            let turn = after.turn(thread_id);
            &&& turn.agent_message_part_id != Some(part_id)
            &&& turn.reasoning_part_id != Some(part_id)
            &&& before.agent_message_part_id == Some(part_id) ==> turn.agent_message_item_id is None
            &&& before.reasoning_part_id == Some(part_id) ==> turn.reasoning_item_id is None
            &&& after.tool_call_item(thread_id, part_id).1 == session_state::item_id(after.item_counter)
        }),
{
}

// ---------------------------------------------------------------------------
// Replay
// ---------------------------------------------------------------------------

/// A replay shows the user message under the identifier under which it was shown live.
pub proof fn law_replay_keeps_the_user_message_id(s: StateView, session_id: Seq<char>)
    ensures
        s.turn(session_id).user_message_item_id matches Some(id) ==> s.prepare_replay(session_id).user_message_item(
            session_id,
        ).1 == id,
{
}

/// After the boundary between two replayed user messages, the next one gets a new identifier.
pub proof fn law_replay_boundary_gives_a_new_user_message_id(s: StateView)
    requires
        s.session_turns.contains_key(s.session_id),
    ensures
        s.mark_new_replayed_user_message_boundary().user_message_item(s.session_id).1 == session_state::item_id(
            s.item_counter,
        ),
{
}

// ---------------------------------------------------------------------------
// Shapes
// ---------------------------------------------------------------------------

/// Whether a value is a message: it has a method, which is a string, and parameters, which are an
/// object.
pub open spec fn is_message(m: JsonView) -> bool {
    &&& m.get_str("method"@) is Some
    &&& m.get("params"@) is Some
    &&& m.get("params"@)->0 is Object
}

/// Whether all values are messages.
pub open spec fn are_messages(events: Seq<JsonView>) -> bool {
    forall|i: int| 0 <= i < events.len() ==> is_message(#[trigger] events[i])
}

proof fn lemma_message_shape(method: Seq<char>, params: JsonView)
    requires
        params is Object,
    ensures
        is_message(event_translator::message(method, params)),
{
    reveal_strlit("method");
    reveal_strlit("params");
    let m = event_translator::message(method, params);
    let e = m->Object_0;
    assert(e[0] == ("method"@, JsonView::Text(method)));
    assert(e[1] == ("params"@, params));
    assert("method"@[0] != "params"@[0]);
    reveal_with_fuel(json::entry_from, 3);
    assert(json::entry_from(e, "method"@, 0) == Some(0int));
    assert(json::entry_from(e, "params"@, 0) == Some(1int));
}

proof fn lemma_request_shape(id: Seq<char>, method: Seq<char>, params: JsonView)
    requires
        params is Object,
    ensures
        is_message(
            json::obj().and("id"@, JsonView::Text(id)).and("method"@, JsonView::Text(method)).and(
                "params"@,
                params,
            ),
        ),
{
    reveal_strlit("id");
    reveal_strlit("method");
    reveal_strlit("params");
    let m = json::obj().and("id"@, JsonView::Text(id)).and("method"@, JsonView::Text(method)).and("params"@, params);
    let e = m->Object_0;
    assert(e[0].0 == "id"@);
    assert(e[1] == ("method"@, JsonView::Text(method)));
    assert(e[2] == ("params"@, params));
    assert("id"@.len() == 2 && "method"@.len() == 6 && "params"@.len() == 6);
    assert("method"@[0] != "params"@[0]);
    reveal_with_fuel(json::entry_from, 4);
    assert(json::entry_from(e, "method"@, 0) == Some(1int));
    assert(json::entry_from(e, "params"@, 0) == Some(2int));
}

proof fn lemma_all_message_shapes()
    ensures
        forall|method: Seq<char>, params: JsonView|
            params is Object ==> is_message(#[trigger] event_translator::message(method, params)),
{
    assert forall|method: Seq<char>, params: JsonView| params is Object implies is_message(
        #[trigger] event_translator::message(method, params),
    ) by {
        lemma_message_shape(method, params);
    }
}

proof fn lemma_plan_event_shape(thread_id: Seq<char>, turn_id: Seq<char>, todos: JsonView)
    ensures
        is_message(tool_items::plan_event(thread_id, turn_id, todos)),
{
    lemma_message_shape(
        "turn/plan/updated"@,
        json::obj().and("threadId"@, JsonView::Text(thread_id)).and("turnId"@, JsonView::Text(turn_id)).and(
            "explanation"@,
            JsonView::Null,
        ).and("plan"@, JsonView::Array(tool_items::steps_of(todos))),
    );
}

proof fn lemma_text_messages(
    s: StateView,
    thread_id: Seq<char>,
    part_id: Option<Seq<char>>,
    full_text: Seq<char>,
    delta: Seq<char>,
)
    ensures
        are_messages(event_translator::user_text_updated(s, thread_id, full_text, delta).1),
        are_messages(event_translator::agent_text_updated(s, thread_id, part_id, full_text, delta).1),
        are_messages(event_translator::reasoning_updated(s, thread_id, part_id, full_text, delta).1),
        are_messages(event_translator::reasoning_summary(s, thread_id, full_text).1),
{
    lemma_all_message_shapes();
}

proof fn lemma_tool_messages(
    item_id: Seq<char>,
    thread_id: Seq<char>,
    turn_id: Seq<char>,
    tool_name: Seq<char>,
    status: Seq<char>,
    tool_state: JsonView,
    diffs: DiffsView,
)
    ensures
        are_messages(
            event_translator::tool_messages(item_id, thread_id, turn_id, tool_name, status, tool_state, diffs),
        ),
{
    lemma_all_message_shapes();
    lemma_plan_event_shape(thread_id, turn_id, tool_items::todo_list_of(tool_state.get("input"@), tool_state));
}

proof fn lemma_part_updated_messages(p: JsonView, s: StateView, diffs: DiffsView)
    ensures
        are_messages(event_translator::part_updated(p, s, diffs).1),
{
    if p.get("part"@) is Some {
        let part = p.get("part"@)->0;
        let delta = text::text_or(p.get_str("delta"@), ""@);
        let full_text = text::text_or(part.get_str("text"@), ""@);
        let s1 = event_translator::entered(s, part.get_str("sessionID"@));
        let thread_id = s1.session_id;
        lemma_text_messages(s1, thread_id, part.get_str("id"@), full_text, delta);
        lemma_text_messages(s1, thread_id, None, event_translator::subtask_label(part), delta);
        lemma_text_messages(s1, thread_id, None, text::text_or(part.get_str("name"@), ""@), delta);
        if part.get("state"@) is Some {
            let tool_state = part.get("state"@)->0;
            let (s2, item_id) = s1.tool_call_item(thread_id, text::text_or(part.get_str("id"@), ""@));
            lemma_tool_messages(
                item_id,
                thread_id,
                s1.turn(thread_id).turn_id,
                text::text_or(part.get_str("tool"@), "unknown"@),
                text::text_or(tool_state.get_str("status"@), "pending"@),
                tool_state,
                diffs,
            );
        }
    }
}

proof fn lemma_other_messages(p: JsonView, s: StateView)
    ensures
        are_messages(event_translator::part_delta(p, s).1),
        are_messages(event_translator::message_updated(p, s).1),
        are_messages(event_translator::session_changed(p, s, true).1),
        are_messages(event_translator::session_status(p, s).1),
        are_messages(event_translator::session_idle(p, s).1),
        are_messages(event_translator::session_error(p, s).1),
        are_messages(event_translator::question_completed(p)),
{
    lemma_all_message_shapes();
}

proof fn lemma_request_messages(p: JsonView, s: StateView)
    ensures
        are_messages(event_translator::permission_asked(p, s)),
        are_messages(event_translator::question_asked(p, s).1),
        are_messages(event_translator::todo_updated(p, s)),
{
    assert forall|id: Seq<char>, method: Seq<char>, params: JsonView| params is Object implies is_message(
        #[trigger] json::obj().and("id"@, JsonView::Text(id)).and("method"@, JsonView::Text(method)).and(
            "params"@,
            params,
        ),
    ) by {
        lemma_request_shape(id, method, params);
    }
    assert forall|thread_id: Seq<char>, turn_id: Seq<char>, todos: JsonView| is_message(
        #[trigger] tool_items::plan_event(thread_id, turn_id, todos),
    ) by {
        lemma_plan_event_shape(thread_id, turn_id, todos);
    }
}

/// Whatever event comes, each value that is sent for it is a message: it has a method and
/// parameters.
pub proof fn law_only_messages_are_sent(event: JsonView, s: StateView, diffs: DiffsView)
    ensures
        are_messages(event_translator::sse_event(event, s, diffs).1),
{
    let p = event_translator::properties_of(event);
    lemma_part_updated_messages(p, s, diffs);
    lemma_other_messages(p, s);
    lemma_request_messages(p, s);
}

} // verus!
