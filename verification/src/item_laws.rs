//! Identifiers of items: none is given out twice, whoever holds it.

use vstd::prelude::*;

use crate::event_translator;
use crate::json::JsonView;
use crate::order_laws;
use crate::prompt_parts;
use crate::replay;
use crate::replay::ReplayView;
use crate::session_state;
use crate::session_state::{StateView, TurnView};
use crate::text;
use crate::tool_items::DiffsView;

verus! {

/// What holds an item identifier within a turn.
pub enum Holder {
    Agent,
    Reasoning,
    User,
    Tool(Seq<char>),
}

/// The identifier that a holder has in a turn.
pub open spec fn held_in(t: TurnView, h: Holder) -> Option<Seq<char>> {
    match h {
        Holder::Agent => t.agent_message_item_id,
        Holder::Reasoning => t.reasoning_item_id,
        Holder::User => t.user_message_item_id,
        Holder::Tool(part_id) => session_state::lookup(t.tool_call_items, part_id),
    }
}

/// The identifier that a holder of a session has.
pub open spec fn held(s: StateView, session_id: Seq<char>, h: Holder) -> Option<Seq<char>> {
    held_in(s.turn(session_id), h)
}

/// Whether an identifier is `item_` and a number of the given range.
pub open spec fn is_item_from(id: Seq<char>, lo: int, hi: int) -> bool {
    &&& lo <= order_laws::number_of(id) < hi <= u64::MAX
    &&& id == session_state::item_id(order_laws::number_of(id) as u64)
}

/// Whether every identifier that a state holds, of any kind and any session, is an item identifier
/// with a number that was given out, and no two holders have the same one.
pub open spec fn ids_are_own(s: StateView) -> bool {
    &&& forall|k: Seq<char>, h: Holder|
        #![trigger held(s, k, h)]
        held(s, k, h) matches Some(id) ==> is_item_from(id, 0, s.item_counter as int)
    &&& forall|a: Seq<char>, g: Holder, b: Seq<char>, h: Holder|
        #![trigger held(s, a, g), held(s, b, h)]
        held(s, a, g) is Some && held(s, a, g) == held(s, b, h) ==> a == b && g == h
}

/// Whether a step gives at most the holder `h` of the session `k` an identifier, a new one, and
/// lets every other holder keep its identifier or lose it.
pub open spec fn gives_one(s: StateView, after: StateView, k: Seq<char>, h: Holder) -> bool {
    &&& s.item_counter <= after.item_counter
    &&& forall|b: Seq<char>, g: Holder|
        #![trigger held(after, b, g)]
        {
            ||| held(after, b, g) is None
            ||| held(after, b, g) == held(s, b, g)
            ||| b == k && g == h && is_item_from(
                held(after, b, g)->0,
                s.item_counter as int,
                after.item_counter as int,
            )
        }
}

proof fn lemma_giving_keeps_ids_own(s: StateView, after: StateView, k: Seq<char>, h: Holder)
    requires
        ids_are_own(s),
        gives_one(s, after, k, h),
    ensures
        ids_are_own(after),
{
    assert forall|b: Seq<char>, g: Holder| #![trigger held(after, b, g)] held(after, b, g) is Some implies is_item_from(
        held(after, b, g)->0,
        0,
        after.item_counter as int,
    ) by {
        if held(after, b, g) == held(s, b, g) {
            assert(is_item_from(held(s, b, g)->0, 0, s.item_counter as int));
        }
    }
    assert forall|a: Seq<char>, f: Holder, b: Seq<char>, g: Holder|
        #![trigger held(after, a, f), held(after, b, g)]
        held(after, a, f) is Some && held(after, a, f) == held(after, b, g) implies a == b && f == g by {
        if held(after, a, f) == held(s, a, f) {
            assert(is_item_from(held(s, a, f)->0, 0, s.item_counter as int));
        }
        if held(after, b, g) == held(s, b, g) {
            assert(is_item_from(held(s, b, g)->0, 0, s.item_counter as int));
        }
    }
}

/// A new state holds no identifier.
pub proof fn law_new_state_holds_no_id(s: StateView)
    requires
        s.session_turns == Map::<Seq<char>, TurnView>::empty(),
    ensures
        ids_are_own(s),
{
}

// ---------------------------------------------------------------------------
// Requests for identifiers
// ---------------------------------------------------------------------------

/// The identifier of a holder, and the state in which it is remembered.
pub open spec fn item_for(s: StateView, session_id: Seq<char>, h: Holder) -> (StateView, Seq<char>) {
    match h {
        Holder::Agent => s.agent_message_item(session_id),
        Holder::Reasoning => s.reasoning_item(session_id),
        Holder::User => s.user_message_item(session_id),
        Holder::Tool(part_id) => s.tool_call_item(session_id, part_id),
    }
}

/// Whether a holder can be told from others: a tool part has an identifier.
pub open spec fn is_named(h: Holder) -> bool {
    h != Holder::Tool(Seq::empty())
}

proof fn lemma_item_for(s: StateView, session_id: Seq<char>, h: Holder)
    requires
        s.item_counter < u64::MAX,
    ensures
        ({
            let (after, id) = item_for(s, session_id, h);
            &&& gives_one(s, after, session_id, h)
            &&& after.item_counter <= s.item_counter + 1
            &&& is_named(h) ==> held(after, session_id, h) == Some(id)
            &&& held(s, session_id, h) is Some ==> held(s, session_id, h) == Some(id)
            &&& held(s, session_id, h) is None ==> id == session_state::item_id(s.item_counter)
                && after.item_counter == s.item_counter + 1
        }),
{
    order_laws::lemma_numbers();
    if let Holder::Tool(part_id) = h {
        assert(part_id.len() == 0 ==> part_id =~= Seq::<char>::empty());
    }
}

/// Each holder has its own identifier. One that has none gets one that was never given out before,
/// to whomever; it gets the same one again when it asks again, and no other holder of this or any
/// other session ever gets that one.
pub proof fn law_each_holder_has_its_own_id(
    s: StateView,
    session_id: Seq<char>,
    h: Holder,
    other_session: Seq<char>,
    other: Holder,
)
    requires
        ids_are_own(s),
        s.item_counter < u64::MAX,
        is_named(h),
        is_named(other),
    ensures
        ({
            let (after, id) = item_for(s, session_id, h);
            &&& ids_are_own(after)
            &&& is_item_from(id, 0, after.item_counter as int)
            &&& held(s, session_id, h) is None ==> forall|n: u64|
                n < s.item_counter ==> id != #[trigger] session_state::item_id(n)
            &&& item_for(after, session_id, h).1 == id
            &&& (other_session != session_id || other != h) ==> item_for(after, other_session, other).1 != id
        }),
{
    let (after, id) = item_for(s, session_id, h);
    order_laws::lemma_numbers();
    lemma_item_for(s, session_id, h);
    lemma_giving_keeps_ids_own(s, after, session_id, h);
    assert(held(after, session_id, h) == Some(id));
    assert(is_item_from(id, 0, after.item_counter as int));
    if held(after, other_session, other) is Some {
        lemma_held_is_shown(after, other_session, other);
    } else {
        lemma_unheld_is_new(after, other_session, other);
    }
    lemma_held_is_shown(after, session_id, h);
}

proof fn lemma_held_is_shown(s: StateView, session_id: Seq<char>, h: Holder)
    requires
        held(s, session_id, h) is Some,
    ensures
        Some(item_for(s, session_id, h).1) == held(s, session_id, h),
{
}

proof fn lemma_unheld_is_new(s: StateView, session_id: Seq<char>, h: Holder)
    requires
        held(s, session_id, h) is None,
    ensures
        item_for(s, session_id, h).1 == session_state::item_id(s.item_counter),
{
}

/// A request for an identifier: by a holder of a session, or by nobody who holds it.
pub enum Request {
    Held(Seq<char>, Holder),
    Unheld,
}

/// The state after a request, and the identifier that comes of it.
pub open spec fn granted(s: StateView, request: Request) -> (StateView, Seq<char>) {
    match request {
        Request::Held(session_id, h) => item_for(s, session_id, h),
        Request::Unheld => (s.counted(), session_state::item_id(s.item_counter)),
    }
}

proof fn lemma_granted(s: StateView, request: Request)
    requires
        ids_are_own(s),
        s.item_counter < u64::MAX,
    ensures
        ids_are_own(granted(s, request).0),
        is_item_from(granted(s, request).1, 0, granted(s, request).0.item_counter as int),
        s.item_counter <= granted(s, request).0.item_counter <= s.item_counter + 1,
{
    order_laws::lemma_numbers();
    let after = granted(s, request).0;
    match request {
        Request::Held(session_id, h) => {
            lemma_item_for(s, session_id, h);
            lemma_giving_keeps_ids_own(s, after, session_id, h);
            if held(s, session_id, h) is Some {
                assert(is_item_from(held(s, session_id, h)->0, 0, s.item_counter as int));
            }
        },
        Request::Unheld => {
            lemma_giving_keeps_ids_own(s, after, Seq::empty(), Holder::User);
        },
    }
}

/// The state and the identifiers that come of requests, one after the other.
pub open spec fn requested(s: StateView, requests: Seq<Request>) -> (StateView, Seq<Seq<char>>)
    decreases requests.len(),
{
    if requests.len() == 0 {
        (s, Seq::empty())
    } else {
        let (s1, before) = requested(s, requests.drop_last());
        let (after, id) = granted(s1, requests.last());
        (after, before.push(id))
    }
}

/// Nothing is given out twice: when a holder without an identifier asks for one, or one is asked
/// for that nobody holds, another one comes than of every request before, of any kind and any
/// session.
pub proof fn law_nothing_is_given_out_twice(
    s: StateView,
    requests: Seq<Request>,
    session_id: Seq<char>,
    h: Holder,
)
    requires
        ids_are_own(s),
        s.item_counter + requests.len() < u64::MAX,
    ensures
        ({
            let (after, ids) = requested(s, requests);
            &&& ids_are_own(after)
            &&& after.item_counter <= s.item_counter + requests.len()
            &&& ids.len() == requests.len()
            &&& forall|i: int|
                0 <= i < ids.len() ==> is_item_from(#[trigger] ids[i], 0, after.item_counter as int)
            &&& held(after, session_id, h) is None ==> !ids.contains(item_for(after, session_id, h).1)
            &&& !ids.contains(granted(after, Request::Unheld).1)
        }),
    decreases requests.len(),
{
    order_laws::lemma_numbers();
    let (after, ids) = requested(s, requests);
    if requests.len() > 0 {
        let init = requests.drop_last();
        law_nothing_is_given_out_twice(s, init, session_id, h);
        let (s1, before) = requested(s, init);
        lemma_granted(s1, requests.last());
        assert forall|i: int| 0 <= i < ids.len() implies is_item_from(
            #[trigger] ids[i],
            0,
            after.item_counter as int,
        ) by {
            if i < before.len() {
                assert(ids[i] == before[i]);
            }
        }
    }
    let new_id = session_state::item_id(after.item_counter);
    if ids.contains(new_id) {
        let i = choose|i: int| 0 <= i < ids.len() && ids[i] == new_id;
        assert(is_item_from(ids[i], 0, after.item_counter as int));
    }
    if held(after, session_id, h) is None {
        lemma_unheld_is_new(after, session_id, h);
    }
}

// ---------------------------------------------------------------------------
// Calls
// ---------------------------------------------------------------------------

/// Every call that changes the turns of a state keeps the identifiers its holders' own.
pub proof fn law_calls_keep_ids_own(s: StateView, session_id: Seq<char>, turn_id: Seq<char>, part_id: Seq<char>)
    requires
        ids_are_own(s),
        s.item_counter < u64::MAX,
    ensures
        ids_are_own(s.counted()),
        ids_are_own(s.with_session(session_id)),
        ids_are_own(s.start_turn(session_id, turn_id)),
        ids_are_own(s.prepare_replay(session_id)),
        ids_are_own(s.finish_turn(session_id)),
        ids_are_own(s.reset_agent_message_item(session_id)),
        ids_are_own(s.remove_part_mapping(session_id, part_id)),
        ids_are_own(s.mark_new_replayed_user_message_boundary()),
{
    order_laws::lemma_numbers();
    let u = Holder::User;
    lemma_giving_keeps_ids_own(s, s.counted(), session_id, u);
    lemma_giving_keeps_ids_own(s, s.with_session(session_id), session_id, u);
    lemma_start_gives_one(s, session_id, turn_id);
    lemma_giving_keeps_ids_own(s, s.start_turn(session_id, turn_id), session_id, u);
    lemma_ends_give_none(s, session_id, part_id);
    lemma_giving_keeps_ids_own(s, s.prepare_replay(session_id), session_id, u);
    lemma_giving_keeps_ids_own(s, s.finish_turn(session_id), session_id, u);
    lemma_giving_keeps_ids_own(s, s.reset_agent_message_item(session_id), session_id, u);
    lemma_giving_keeps_ids_own(s, s.remove_part_mapping(session_id, part_id), session_id, u);
    lemma_giving_keeps_ids_own(s, s.mark_new_replayed_user_message_boundary(), session_id, u);
}

proof fn lemma_start_gives_one(s: StateView, session_id: Seq<char>, turn_id: Seq<char>)
    requires
        s.item_counter < u64::MAX,
    ensures
        gives_one(s, s.start_turn(session_id, turn_id), session_id, Holder::User),
{
    order_laws::lemma_numbers();
}

proof fn lemma_ends_give_none(s: StateView, session_id: Seq<char>, part_id: Seq<char>)
    ensures
        gives_one(s, s.prepare_replay(session_id), session_id, Holder::User),
        gives_one(s, s.finish_turn(session_id), session_id, Holder::User),
        gives_one(s, s.reset_agent_message_item(session_id), session_id, Holder::User),
        gives_one(s, s.remove_part_mapping(session_id, part_id), session_id, Holder::User),
        gives_one(s, s.mark_new_replayed_user_message_boundary(), session_id, Holder::User),
{
}

/// When a turn starts, its user message has an identifier `item_` and a number, and every
/// identifier that is made after that has a greater number.
pub proof fn law_user_message_is_named_at_the_start(s: StateView, session_id: Seq<char>, turn_id: Seq<char>)
    requires
        ids_are_own(s),
        s.item_counter < u64::MAX,
    ensures
        ({
            let after = s.start_turn(session_id, turn_id);
            let id = after.turn(session_id).user_message_item_id;
            &&& id is Some
            &&& is_item_from(id->0, 0, after.item_counter as int)
            &&& forall|n: u64|
                after.item_counter <= n ==> order_laws::number_of(id->0) < order_laws::number_of(
                    #[trigger] session_state::item_id(n),
                )
        }),
{
    order_laws::lemma_numbers();
    law_calls_keep_ids_own(s, session_id, turn_id, Seq::empty());
    let after = s.start_turn(session_id, turn_id);
    assert(held(after, session_id, Holder::User) is Some);
}

// ---------------------------------------------------------------------------
// Events
// ---------------------------------------------------------------------------

proof fn lemma_text_gives_one(s: StateView, part_id: Option<Seq<char>>, full_text: Seq<char>, delta: Seq<char>)
    requires
        s.item_counter <= u64::MAX - 2,
    ensures
        gives_one(
            s,
            event_translator::user_text_updated(s, s.session_id, full_text, delta).0,
            s.session_id,
            Holder::User,
        ),
        gives_one(
            s,
            event_translator::agent_text_updated(s, s.session_id, part_id, full_text, delta).0,
            s.session_id,
            Holder::Agent,
        ),
{
    order_laws::lemma_numbers();
}

proof fn lemma_reasoning_gives_one(
    s: StateView,
    part_id: Option<Seq<char>>,
    full_text: Seq<char>,
    delta: Seq<char>,
)
    requires
        s.item_counter <= u64::MAX - 2,
    ensures
        gives_one(
            s,
            event_translator::reasoning_updated(s, s.session_id, part_id, full_text, delta).0,
            s.session_id,
            Holder::Reasoning,
        ),
        gives_one(
            s,
            event_translator::reasoning_summary(s, s.session_id, full_text).0,
            s.session_id,
            Holder::Reasoning,
        ),
{
    order_laws::lemma_numbers();
}

/// What a tool part is held by.
pub open spec fn tool_holder(part: JsonView) -> Holder {
    Holder::Tool(text::text_or(part.get_str("id"@), ""@))
}

proof fn lemma_tool_gives_one(part: JsonView, s: StateView, thread_id: Seq<char>, diffs: DiffsView)
    requires
        s.item_counter < u64::MAX,
    ensures
        gives_one(s, event_translator::tool_part(part, s, thread_id, diffs).0, thread_id, tool_holder(part)),
{
    order_laws::lemma_numbers();
}

/// An update of a tool part keeps the identifiers its holders' own.
pub proof fn lemma_tool_keeps_ids_own(part: JsonView, s: StateView, thread_id: Seq<char>, diffs: DiffsView)
    requires
        ids_are_own(s),
        s.item_counter < u64::MAX,
    ensures
        ids_are_own(event_translator::tool_part(part, s, thread_id, diffs).0),
        event_translator::tool_part(part, s, thread_id, diffs).0.item_counter <= s.item_counter + 1,
{
    lemma_tool_gives_one(part, s, thread_id, diffs);
    lemma_giving_keeps_ids_own(
        s,
        event_translator::tool_part(part, s, thread_id, diffs).0,
        thread_id,
        tool_holder(part),
    );
}

proof fn lemma_deltas_give_one(s: StateView, part_id: Seq<char>, delta: Seq<char>)
    requires
        s.item_counter <= u64::MAX - 2,
    ensures
        gives_one(s, event_translator::user_chunk(s, s.session_id, delta).0, s.session_id, Holder::User),
        gives_one(s, event_translator::reasoning_delta(s, s.session_id, delta).0, s.session_id, Holder::Reasoning),
        gives_one(
            s,
            event_translator::agent_delta(s, s.session_id, part_id, delta).0,
            s.session_id,
            Holder::Agent,
        ),
{
    order_laws::lemma_numbers();
}

proof fn lemma_entered_ids(s: StateView, session_id: Option<Seq<char>>)
    requires
        ids_are_own(s),
    ensures
        ids_are_own(event_translator::entered(s, session_id)),
{
    let after = event_translator::entered(s, session_id);
    lemma_giving_keeps_ids_own(s, after, Seq::empty(), Holder::User);
}

proof fn lemma_part_updated_keeps_ids(p: JsonView, s: StateView, diffs: DiffsView)
    requires
        ids_are_own(s),
        s.item_counter <= u64::MAX - 2,
    ensures
        ids_are_own(event_translator::part_updated(p, s, diffs).0),
{
    if p.get("part"@) is Some {
        let part = p.get("part"@)->0;
        let delta = text::text_or(p.get_str("delta"@), ""@);
        let full_text = text::text_or(part.get_str("text"@), ""@);
        let kind = text::text_or(part.get_str("type"@), ""@);
        let s1 = event_translator::entered(s, part.get_str("sessionID"@));
        let k = s1.session_id;
        let after = event_translator::part_updated(p, s, diffs).0;
        lemma_entered_ids(s, part.get_str("sessionID"@));
        if kind == "text"@ {
            lemma_text_gives_one(s1, part.get_str("id"@), full_text, delta);
            if s1.is_user_message_id(event_translator::message_id_of(part)) {
                lemma_giving_keeps_ids_own(s1, after, k, Holder::User);
            } else {
                lemma_giving_keeps_ids_own(s1, after, k, Holder::Agent);
            }
        } else if kind == "reasoning"@ {
            lemma_reasoning_gives_one(s1, part.get_str("id"@), full_text, delta);
            if !s1.is_user_message_id(event_translator::message_id_of(part)) {
                lemma_giving_keeps_ids_own(s1, after, k, Holder::Reasoning);
            }
        } else if kind == "subtask"@ {
            lemma_reasoning_gives_one(s1, None, event_translator::subtask_label(part), delta);
            lemma_giving_keeps_ids_own(s1, after, k, Holder::Reasoning);
        } else if kind == "agent"@ {
            lemma_reasoning_gives_one(s1, None, text::text_or(part.get_str("name"@), ""@), delta);
            lemma_giving_keeps_ids_own(s1, after, k, Holder::Reasoning);
        } else if kind == "tool"@ {
            lemma_tool_gives_one(part, s1, k, diffs);
            lemma_giving_keeps_ids_own(s1, after, k, tool_holder(part));
        }
    }
}

proof fn lemma_part_delta_keeps_ids(p: JsonView, s: StateView)
    requires
        ids_are_own(s),
        s.item_counter <= u64::MAX - 2,
    ensures
        ids_are_own(event_translator::part_delta(p, s).0),
        ids_are_own(event_translator::part_removed(p, s).0),
{
    let s1 = event_translator::entered(s, p.get_str("sessionID"@));
    let k = s1.session_id;
    let part_id = text::text_or(p.get_str("partID"@), ""@);
    let delta = text::text_or(p.get_str("delta"@), ""@);
    lemma_entered_ids(s, p.get_str("sessionID"@));
    lemma_deltas_give_one(s1, part_id, delta);
    lemma_giving_keeps_ids_own(s1, event_translator::user_chunk(s1, k, delta).0, k, Holder::User);
    lemma_giving_keeps_ids_own(s1, event_translator::reasoning_delta(s1, k, delta).0, k, Holder::Reasoning);
    lemma_giving_keeps_ids_own(s1, event_translator::agent_delta(s1, k, part_id, delta).0, k, Holder::Agent);
    law_calls_keep_ids_own(s1, k, Seq::empty(), part_id);
}

proof fn lemma_session_events_keep_ids(p: JsonView, s: StateView)
    requires
        ids_are_own(s),
        s.item_counter <= u64::MAX - 2,
    ensures
        ids_are_own(event_translator::session_status(p, s).0),
        ids_are_own(event_translator::session_idle(p, s).0),
        ids_are_own(event_translator::session_error(p, s).0),
{
    let s1 = event_translator::entered(s, event_translator::status_session(p));
    let turn_id = session_state::synthetic_turn_id(s1.item_counter);
    lemma_entered_ids(s, event_translator::status_session(p));
    law_calls_keep_ids_own(s1, s1.session_id, turn_id, Seq::empty());
    law_calls_keep_ids_own(s1.counted(), s1.session_id, turn_id, Seq::empty());
}

proof fn lemma_other_events_keep_ids(p: JsonView, s: StateView)
    requires
        ids_are_own(s),
        s.item_counter <= u64::MAX - 2,
    ensures
        ids_are_own(event_translator::message_updated(p, s).0),
        ids_are_own(event_translator::session_changed(p, s, true).0),
        ids_are_own(event_translator::question_asked(p, s).0),
{
    let updated = event_translator::message_updated(p, s).0;
    lemma_giving_keeps_ids_own(s, updated, Seq::empty(), Holder::User);
    lemma_giving_keeps_ids_own(s, event_translator::session_changed(p, s, true).0, Seq::empty(), Holder::User);
    lemma_giving_keeps_ids_own(s, event_translator::question_asked(p, s).0, Seq::empty(), Holder::User);
}

/// No event gives an identifier out twice: every identifier that is held, of any kind and any
/// session, has a number below the counter, and no two holders have the same one, short of the end
/// of the counter.
pub proof fn law_events_keep_ids_own(event: JsonView, s: StateView, diffs: DiffsView)
    requires
        ids_are_own(s),
        s.item_counter <= u64::MAX - 2,
    ensures
        ids_are_own(event_translator::sse_event(event, s, diffs).0),
{
    let p = event_translator::properties_of(event);
    lemma_part_updated_keeps_ids(p, s, diffs);
    lemma_part_delta_keeps_ids(p, s);
    lemma_session_events_keep_ids(p, s);
    lemma_other_events_keep_ids(p, s);
}

/// A message that the user sends keeps the identifiers its holders' own.
pub proof fn law_sent_message_keeps_ids_own(
    s: StateView,
    thread_id: Seq<char>,
    turn_id: Seq<char>,
    content: Seq<JsonView>,
)
    requires
        ids_are_own(s),
        s.item_counter < u64::MAX,
    ensures
        ids_are_own(prompt_parts::user_turn_started(s, thread_id, turn_id, content).0),
{
    let s1 = s.start_turn(thread_id, turn_id);
    law_calls_keep_ids_own(s, thread_id, turn_id, Seq::empty());
    assert(held(s1, thread_id, Holder::User) is Some);
    lemma_giving_keeps_ids_own(s1, s1.user_message_item(thread_id).0, thread_id, Holder::User);
}

proof fn lemma_messages_keep_ids(
    v: ReplayView,
    entries: Seq<JsonView>,
    thread_id: Seq<char>,
    stored: Map<Seq<char>, Seq<char>>,
    diffs: Seq<DiffsView>,
)
    requires
        ids_are_own(v.state),
        v.state.item_counter + entries.len() <= u64::MAX,
    ensures
        ({
            let after = replay::messages_replayed(v, entries, thread_id, stored, diffs).state;
            &&& ids_are_own(after)
            &&& after.item_counter <= v.state.item_counter + entries.len()
        }),
    decreases entries.len(),
{
    if entries.len() > 0 {
        let before = replay::messages_replayed(v, entries.drop_last(), thread_id, stored, diffs);
        let s = before.state;
        lemma_messages_keep_ids(v, entries.drop_last(), thread_id, stored, diffs);
        order_laws::lemma_tools_leave_the_state(
            replay::content_replayed(before, entries.last(), thread_id, stored),
            replay::tool_parts(replay::parts_of(entries.last())),
            thread_id,
            diffs,
        );
        let (s1, id) = s.user_message_item(thread_id);
        lemma_item_for(s, thread_id, Holder::User);
        lemma_giving_keeps_ids_own(s, s1, thread_id, Holder::User);
        lemma_ends_give_none(s1, thread_id, Seq::empty());
        lemma_giving_keeps_ids_own(s1, s1.mark_new_replayed_user_message_boundary(), thread_id, Holder::User);
    }
}

/// A replay keeps the identifiers its holders' own, short of the end of the counter.
pub proof fn law_replay_keeps_ids_own(
    s: StateView,
    thread_id: Seq<char>,
    entries: Seq<JsonView>,
    stored: Map<Seq<char>, Seq<char>>,
    diffs: Seq<DiffsView>,
)
    requires
        ids_are_own(s),
        s.item_counter + entries.len() <= u64::MAX,
    ensures
        ids_are_own(replay::thread_replayed(s, thread_id, entries, stored, diffs).0),
{
    let s1 = s.prepare_replay(thread_id);
    lemma_ends_give_none(s, thread_id, Seq::empty());
    lemma_giving_keeps_ids_own(s, s1, thread_id, Holder::User);
    let start = ReplayView { state: s1, items: 0, tools: 0, events: Seq::empty() };
    lemma_messages_keep_ids(start, entries, thread_id, stored, diffs);
    let v = replay::messages_replayed(start, entries, thread_id, stored, diffs);
    let after = replay::thread_replayed(s, thread_id, entries, stored, diffs).0;
    assert(after.session_turns == v.state.session_turns && after.item_counter == v.state.item_counter);
    lemma_giving_keeps_ids_own(v.state, after, thread_id, Holder::User);
}

} // verus!
