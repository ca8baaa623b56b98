//! The order in which the identifiers of a turn are made: the user message comes first.

use vstd::prelude::*;

use crate::event_translator;
use crate::json::JsonView;
use crate::prompt_parts;
use crate::replay;
use crate::replay::ReplayView;
use crate::session_state;
use crate::session_state::{StateView, TurnView};
use crate::stream_laws;
use crate::text;
use crate::tool_items::DiffsView;

verus! {

/// The number in an item identifier.
pub open spec fn number_of(id: Seq<char>) -> nat {
    text::digits_value(id.skip("item_"@.len() as int))
}

/// An item identifier holds the number that it was made with.
pub proof fn law_item_id_holds_its_number(n: u64)
    ensures
        number_of(session_state::item_id(n)) == n,
{
    stream_laws::lemma_decimal_value(n as nat);
    assert(session_state::item_id(n).skip("item_"@.len() as int) =~= text::decimal(n as nat));
}

pub proof fn lemma_numbers()
    ensures
        forall|n: u64| number_of(#[trigger] session_state::item_id(n)) == n,
{
    assert forall|n: u64| number_of(#[trigger] session_state::item_id(n)) == n by {
        law_item_id_holds_its_number(n);
    }
}

/// Whether an identifier, where there is one, has a greater number than the given one.
pub open spec fn is_above(id: Option<Seq<char>>, n: nat) -> bool {
    id matches Some(i) ==> n < number_of(i)
}

/// Whether the user message of a turn has the lowest number of all items of the turn, where the
/// turn runs.
pub open spec fn user_message_is_lowest(t: TurnView) -> bool {
    t.turn_id.len() > 0 ==> {
        &&& t.user_message_item_id is Some
        &&& is_above(t.agent_message_item_id, number_of(t.user_message_item_id->0))
        &&& is_above(t.reasoning_item_id, number_of(t.user_message_item_id->0))
        &&& forall|part: Seq<char>|
            #![trigger t.tool_call_items[part]]
            t.tool_call_items.contains_key(part) ==> number_of(t.user_message_item_id->0) < number_of(
                t.tool_call_items[part],
            )
    }
}

/// Whether a turn is in order: its user message has the lowest number, and one that was given out.
pub open spec fn turn_in_order(t: TurnView, counter: u64) -> bool {
    &&& t.user_message_item_id matches Some(id) ==> number_of(id) < counter
    &&& user_message_is_lowest(t)
}

/// Whether the turns of all sessions are in order.
pub open spec fn in_order(s: StateView) -> bool {
    forall|k: Seq<char>|
        #![trigger s.session_turns[k]]
        s.session_turns.contains_key(k) ==> turn_in_order(s.session_turns[k], s.item_counter)
}

/// A step that changes one turn at most, leaves it in order, and does not take the counter back.
proof fn lemma_one_turn(s: StateView, after: StateView, thread_id: Seq<char>)
    requires
        in_order(s),
        s.item_counter <= after.item_counter,
        after.session_turns == s.session_turns || after.session_turns == s.session_turns.insert(
            thread_id,
            after.session_turns[thread_id],
        ),
        turn_in_order(after.turn(thread_id), after.item_counter),
    ensures
        in_order(after),
{
    assert forall|k: Seq<char>|
        #![trigger after.session_turns[k]]
        after.session_turns.contains_key(k) implies turn_in_order(after.session_turns[k], after.item_counter) by {
        if k != thread_id {
            assert(s.session_turns.contains_key(k));
            assert(after.session_turns[k] == s.session_turns[k]);
            assert(turn_in_order(s.session_turns[k], s.item_counter));
        }
    }
}

/// Nothing is out of order where nothing is known yet.
pub proof fn law_new_state_is_in_order(s: StateView)
    requires
        s.session_turns == Map::<Seq<char>, TurnView>::empty(),
    ensures
        in_order(s),
{
}

/// The start of a turn keeps the user message first.
pub proof fn law_start_of_a_turn_keeps_the_order(s: StateView, session_id: Seq<char>, turn_id: Seq<char>)
    requires
        in_order(s),
        s.item_counter < u64::MAX,
    ensures
        in_order(s.start_turn(session_id, turn_id)),
{
    lemma_numbers();
    let after = s.start_turn(session_id, turn_id);
    if s.session_turns.contains_key(session_id) {
        assert(turn_in_order(s.session_turns[session_id], s.item_counter));
    }
    assert(after.session_turns =~= s.session_turns.insert(session_id, after.session_turns[session_id]));
    lemma_one_turn(s, after, session_id);
}

/// Whether the turn of the active session is in order.
spec fn active_in_order(s: StateView) -> bool {
    turn_in_order(s.turn(s.session_id), s.item_counter)
}

/// Whether a step that leads to `after` keeps the turn of the active session in order.
spec fn keeps_active_order(s: StateView, after: StateView) -> bool {
    active_in_order(s) && s.item_counter <= u64::MAX - 2 ==> active_in_order(after)
}

proof fn lemma_text_keeps_order(s: StateView, part_id: Option<Seq<char>>, full_text: Seq<char>, delta: Seq<char>)
    ensures
        keeps_active_order(s, event_translator::user_text_updated(s, s.session_id, full_text, delta).0),
        keeps_active_order(s, event_translator::agent_text_updated(s, s.session_id, part_id, full_text, delta).0),
{
    lemma_numbers();
}

proof fn lemma_reasoning_keeps_order(
    s: StateView,
    part_id: Option<Seq<char>>,
    full_text: Seq<char>,
    delta: Seq<char>,
)
    ensures
        keeps_active_order(s, event_translator::reasoning_updated(s, s.session_id, part_id, full_text, delta).0),
        keeps_active_order(s, event_translator::reasoning_summary(s, s.session_id, full_text).0),
{
    lemma_numbers();
}

proof fn lemma_tool_keeps_order(part: JsonView, s: StateView, diffs: DiffsView)
    ensures
        keeps_active_order(s, event_translator::tool_part(part, s, s.session_id, diffs).0),
{
    lemma_numbers();
}

proof fn lemma_chunks_keep_order(s: StateView, part_id: Seq<char>, delta: Seq<char>)
    ensures
        keeps_active_order(s, event_translator::user_chunk(s, s.session_id, delta).0),
        keeps_active_order(s, event_translator::reasoning_delta(s, s.session_id, delta).0),
        keeps_active_order(s, event_translator::agent_delta(s, s.session_id, part_id, delta).0),
{
    lemma_numbers();
}

proof fn lemma_removal_keeps_order(s: StateView, part_id: Seq<char>)
    ensures
        keeps_active_order(s, s.remove_part_mapping(s.session_id, part_id)),
{
}

proof fn lemma_turns_keep_order(s: StateView, turn_id: Seq<char>)
    ensures
        keeps_active_order(s, s.counted()),
        keeps_active_order(s, s.finish_turn(s.session_id)),
        keeps_active_order(s, s.counted().start_turn(s.session_id, turn_id)),
{
    lemma_numbers();
}

/// The session that an event is about is in order where all sessions are.
proof fn lemma_entered_in_order(s: StateView, session_id: Option<Seq<char>>)
    requires
        in_order(s),
    ensures
        active_in_order(event_translator::entered(s, session_id)),
{
    let s1 = event_translator::entered(s, session_id);
    if s.session_turns.contains_key(s1.session_id) {
        assert(turn_in_order(s.session_turns[s1.session_id], s.item_counter));
    }
}

proof fn lemma_part_updated_keeps_order(p: JsonView, s: StateView, diffs: DiffsView)
    requires
        in_order(s),
        s.item_counter <= u64::MAX - 2,
    ensures
        active_in_order(event_translator::part_updated(p, s, diffs).0),
{
    lemma_entered_in_order(s, None);
    if p.get("part"@) is Some {
        let part = p.get("part"@)->0;
        let delta = text::text_or(p.get_str("delta"@), ""@);
        let full_text = text::text_or(part.get_str("text"@), ""@);
        let s1 = event_translator::entered(s, part.get_str("sessionID"@));
        lemma_entered_in_order(s, part.get_str("sessionID"@));
        lemma_text_keeps_order(s1, part.get_str("id"@), full_text, delta);
        lemma_reasoning_keeps_order(s1, part.get_str("id"@), full_text, delta);
        lemma_reasoning_keeps_order(s1, None, event_translator::subtask_label(part), delta);
        lemma_reasoning_keeps_order(s1, None, text::text_or(part.get_str("name"@), ""@), delta);
        lemma_tool_keeps_order(part, s1, diffs);
    }
}

proof fn lemma_part_delta_keeps_order(p: JsonView, s: StateView)
    requires
        in_order(s),
        s.item_counter <= u64::MAX - 2,
    ensures
        active_in_order(event_translator::part_delta(p, s).0),
        active_in_order(event_translator::part_removed(p, s).0),
{
    let s1 = event_translator::entered(s, p.get_str("sessionID"@));
    let part_id = text::text_or(p.get_str("partID"@), ""@);
    lemma_entered_in_order(s, None);
    lemma_entered_in_order(s, p.get_str("sessionID"@));
    lemma_chunks_keep_order(s1, part_id, text::text_or(p.get_str("delta"@), ""@));
    lemma_removal_keeps_order(s1, part_id);
}

proof fn lemma_session_events_keep_order(p: JsonView, s: StateView)
    requires
        in_order(s),
        s.item_counter <= u64::MAX - 2,
    ensures
        active_in_order(event_translator::session_status(p, s).0),
        active_in_order(event_translator::session_idle(p, s).0),
        active_in_order(event_translator::session_error(p, s).0),
{
    let s1 = event_translator::entered(s, event_translator::status_session(p));
    lemma_entered_in_order(s, event_translator::status_session(p));
    lemma_turns_keep_order(s1, session_state::synthetic_turn_id(s1.item_counter));
}

proof fn lemma_other_events_keep_order(p: JsonView, s: StateView)
    requires
        in_order(s),
        s.item_counter <= u64::MAX - 2,
    ensures
        active_in_order(event_translator::message_updated(p, s).0),
        active_in_order(event_translator::session_changed(p, s, true).0),
        active_in_order(event_translator::question_asked(p, s).0),
{
    lemma_entered_in_order(s, None);
    if p.get("info"@) is Some {
        lemma_entered_in_order(s, (p.get("info"@)->0).get_str("sessionID"@));
    }
    if event_translator::session_record(p) is Some {
        lemma_entered_in_order(s, Some(event_translator::session_id_of(event_translator::session_record(p)->0)));
    }
    let session_id = Some(text::text_or(p.get_str("sessionID"@), s.session_id));
    lemma_entered_in_order(s, session_id);
    lemma_turns_keep_order(event_translator::entered(s, session_id), Seq::empty());
}

/// In every turn that runs, the user message has the lowest number of all items of the turn: no
/// event changes that, short of the end of the counter.
pub proof fn law_user_message_stays_lowest(event: JsonView, s: StateView, diffs: DiffsView)
    requires
        in_order(s),
        s.item_counter <= u64::MAX - 2,
    ensures
        in_order(event_translator::sse_event(event, s, diffs).0),
{
    let after = event_translator::sse_event(event, s, diffs).0;
    let p = event_translator::properties_of(event);
    lemma_entered_in_order(s, None);
    lemma_part_updated_keeps_order(p, s, diffs);
    lemma_part_delta_keeps_order(p, s);
    lemma_session_events_keep_order(p, s);
    lemma_other_events_keep_order(p, s);
    assert(active_in_order(after));
    assert forall|k: Seq<char>|
        #![trigger after.session_turns[k]]
        after.session_turns.contains_key(k) implies turn_in_order(after.session_turns[k], after.item_counter) by {
        stream_laws::lemma_event_is_small(event, s, diffs, k);
        if k != after.session_id {
            assert(session_state::lookup(after.session_turns, k) == session_state::lookup(s.session_turns, k));
            assert(turn_in_order(s.session_turns[k], s.item_counter));
        }
    }
}

/// A message that the user sends keeps the user message of its turn first.
pub proof fn law_sent_message_keeps_the_order(
    s: StateView,
    thread_id: Seq<char>,
    turn_id: Seq<char>,
    content: Seq<JsonView>,
)
    requires
        in_order(s),
        s.item_counter < u64::MAX,
    ensures
        in_order(prompt_parts::user_turn_started(s, thread_id, turn_id, content).0),
{
    law_start_of_a_turn_keeps_the_order(s, thread_id, turn_id);
    let s1 = s.start_turn(thread_id, turn_id);
    let after = prompt_parts::user_turn_started(s, thread_id, turn_id, content).0;
    assert(turn_in_order(s1.session_turns[thread_id], s1.item_counter));
    lemma_one_turn(s1, after, thread_id);
}

/// Whether a replay has come to a state in order in which no turn of the thread runs.
spec fn replays_in_order(s: StateView, thread_id: Seq<char>) -> bool {
    &&& in_order(s)
    &&& s.session_id == thread_id
    &&& s.turn(thread_id).turn_id.len() == 0
}

pub proof fn lemma_tools_leave_the_state(
    v: ReplayView,
    tools: Seq<JsonView>,
    thread_id: Seq<char>,
    diffs: Seq<DiffsView>,
)
    ensures
        replay::tools_replayed(v, tools, thread_id, diffs).state == v.state,
    decreases tools.len(),
{
    if tools.len() > 0 {
        lemma_tools_leave_the_state(v, tools.drop_last(), thread_id, diffs);
    }
}

proof fn lemma_content_keeps_order(
    v: ReplayView,
    entry: JsonView,
    thread_id: Seq<char>,
    stored: Map<Seq<char>, Seq<char>>,
)
    requires
        replays_in_order(v.state, thread_id),
        v.state.item_counter < u64::MAX,
    ensures
        ({
            let after = replay::content_replayed(v, entry, thread_id, stored).state;
            &&& replays_in_order(after, thread_id)
            &&& v.state.item_counter <= after.item_counter <= v.state.item_counter + 1
        }),
{
    let s = v.state;
    let after = replay::content_replayed(v, entry, thread_id, stored).state;
    if after != s {
        assert(after.session_turns =~= s.session_turns.insert(thread_id, after.session_turns[thread_id]));
        lemma_one_turn(s, after, thread_id);
    }
}

proof fn lemma_messages_keep_order(
    v: ReplayView,
    entries: Seq<JsonView>,
    thread_id: Seq<char>,
    stored: Map<Seq<char>, Seq<char>>,
    diffs: Seq<DiffsView>,
)
    requires
        replays_in_order(v.state, thread_id),
        v.state.item_counter + entries.len() <= u64::MAX,
    ensures
        ({
            let after = replay::messages_replayed(v, entries, thread_id, stored, diffs).state;
            &&& replays_in_order(after, thread_id)
            &&& after.item_counter <= v.state.item_counter + entries.len()
        }),
    decreases entries.len(),
{
    if entries.len() > 0 {
        let before = replay::messages_replayed(v, entries.drop_last(), thread_id, stored, diffs);
        lemma_messages_keep_order(v, entries.drop_last(), thread_id, stored, diffs);
        lemma_content_keeps_order(before, entries.last(), thread_id, stored);
        lemma_tools_leave_the_state(
            replay::content_replayed(before, entries.last(), thread_id, stored),
            replay::tool_parts(replay::parts_of(entries.last())),
            thread_id,
            diffs,
        );
    }
}

/// A replay keeps the user messages of all turns that run first, short of the end of the counter.
pub proof fn law_replay_keeps_the_order(
    s: StateView,
    thread_id: Seq<char>,
    entries: Seq<JsonView>,
    stored: Map<Seq<char>, Seq<char>>,
    diffs: Seq<DiffsView>,
)
    requires
        in_order(s),
        s.item_counter + entries.len() <= u64::MAX,
    ensures
        in_order(replay::thread_replayed(s, thread_id, entries, stored, diffs).0),
{
    let s1 = s.prepare_replay(thread_id);
    if s.session_turns.contains_key(thread_id) {
        assert(turn_in_order(s.session_turns[thread_id], s.item_counter));
    }
    lemma_one_turn(s, s1, thread_id);
    let start = ReplayView { state: s1, items: 0, tools: 0, events: Seq::empty() };
    lemma_messages_keep_order(start, entries, thread_id, stored, diffs);
    let v = replay::messages_replayed(start, entries, thread_id, stored, diffs);
    let after = replay::thread_replayed(s, thread_id, entries, stored, diffs).0;
    assert(after.session_turns == v.state.session_turns && after.item_counter == v.state.item_counter);
}

} // verus!
