//! What is remembered of sessions and turns, and how it changes.

use vstd::prelude::*;

use crate::event_translator;
use crate::json::JsonView;
use crate::reading;
use crate::session_state;
use crate::session_state::{StateView, TurnView};
use crate::text;
use crate::text_laws;

verus! {

proof fn lemma_state_names()
    ensures
        ""@.len() == 0,
        "/"@.len() == 1,
        "context"@.len() == 7,
        "id"@.len() == 2,
        "limit"@.len() == 5,
        "models"@.len() == 6,
        "providers"@.len() == 9,
        "user"@.len() == 4,
{
    reveal_strlit("");
    reveal_strlit("/");
    reveal_strlit("context");
    reveal_strlit("id");
    reveal_strlit("limit");
    reveal_strlit("models");
    reveal_strlit("providers");
    reveal_strlit("user");
}

/// Whether nothing but the turn of one session, the active session and the count of identifiers has
/// changed.
pub open spec fn others_stay(s: StateView, after: StateView, session_id: Seq<char>, other: Seq<char>) -> bool {
    &&& other != session_id ==> after.turn(other) == s.turn(other)
    &&& after.message_roles == s.message_roles
    &&& after.model_context_windows == s.model_context_windows
}

// ---------------------------------------------------------------------------
// Identifiers
// ---------------------------------------------------------------------------

/// The agent message of a session has one identifier: the one that it has already, or else the next one that
/// was not given yet. It is told again each time, and nothing else of the session changes.
pub proof fn law_agent_message_item_keeps_its_id(s: StateView, session_id: Seq<char>, other: Seq<char>)
    ensures
        ({
            let (after, id) = s.agent_message_item(session_id);
            let before = s.turn(session_id);
            &&& before.agent_message_item_id matches Some(known) ==> id == known && after.item_counter == s.item_counter
            &&& before.agent_message_item_id is None ==> id == session_state::item_id(s.item_counter) && (s.item_counter
                < u64::MAX ==> after.item_counter == s.item_counter + 1)
            &&& after.agent_message_item(session_id) == (after, id)
            &&& after.turn(session_id) == (TurnView { agent_message_item_id: Some(id), ..before })
            &&& others_stay(s, after, session_id, other)
            &&& after.session_id == s.session_id
        }),
{
    let (after, id) = s.agent_message_item(session_id);
    assert(after.session_turns.insert(session_id, after.turn(session_id)) =~= after.session_turns);
}

/// The reasoning of a session has one identifier: the one that it has already, or else the next one that
/// was not given yet. It is told again each time, and nothing else of the session changes.
pub proof fn law_reasoning_item_keeps_its_id(s: StateView, session_id: Seq<char>, other: Seq<char>)
    ensures
        ({
            let (after, id) = s.reasoning_item(session_id);
            let before = s.turn(session_id);
            &&& before.reasoning_item_id matches Some(known) ==> id == known && after.item_counter == s.item_counter
            &&& before.reasoning_item_id is None ==> id == session_state::item_id(s.item_counter) && (s.item_counter
                < u64::MAX ==> after.item_counter == s.item_counter + 1)
            &&& after.reasoning_item(session_id) == (after, id)
            &&& after.turn(session_id) == (TurnView { reasoning_item_id: Some(id), ..before })
            &&& others_stay(s, after, session_id, other)
            &&& after.session_id == s.session_id
        }),
{
    let (after, id) = s.reasoning_item(session_id);
    assert(after.session_turns.insert(session_id, after.turn(session_id)) =~= after.session_turns);
}

/// The user message of a session has one identifier: the one that it has already, or else the next one that
/// was not given yet. It is told again each time, and nothing else of the session changes.
pub proof fn law_user_message_item_keeps_its_id(s: StateView, session_id: Seq<char>, other: Seq<char>)
    ensures
        ({
            let (after, id) = s.user_message_item(session_id);
            let before = s.turn(session_id);
            &&& before.user_message_item_id matches Some(known) ==> id == known && after.item_counter == s.item_counter
            &&& before.user_message_item_id is None ==> id == session_state::item_id(s.item_counter) && (s.item_counter
                < u64::MAX ==> after.item_counter == s.item_counter + 1)
            &&& after.user_message_item(session_id) == (after, id)
            &&& after.turn(session_id) == (TurnView { user_message_item_id: Some(id), ..before })
            &&& others_stay(s, after, session_id, other)
            &&& after.session_id == s.session_id
        }),
{
    let (after, id) = s.user_message_item(session_id);
    assert(after.session_turns.insert(session_id, after.turn(session_id)) =~= after.session_turns);
}

/// A tool part keeps its item, and two parts have different ones; a part without an identifier gets a
/// new item each time.
pub proof fn law_tool_call_item_keeps_its_id(s: StateView, session_id: Seq<char>, part_id: Seq<char>, other: Seq<char>)
    ensures
        ({
            let (after, id) = s.tool_call_item(session_id, part_id);
            let before = s.turn(session_id);
            let known = before.tool_call_items.contains_key(part_id);
            &&& known ==> id == before.tool_call_items[part_id] && after.item_counter == s.item_counter
            &&& !known ==> id == session_state::item_id(s.item_counter) && (s.item_counter < u64::MAX
                ==> after.item_counter == s.item_counter + 1)
            &&& part_id.len() > 0 ==> after.tool_call_item(session_id, part_id) == (after, id)
            &&& part_id.len() == 0 && !known ==> after.turn(session_id) == before
            &&& other != part_id ==> session_state::lookup(after.turn(session_id).tool_call_items, other)
                == session_state::lookup(before.tool_call_items, other)
            &&& after.turn(session_id) == (TurnView {
                tool_call_items: after.turn(session_id).tool_call_items,
                ..before
            })
            &&& others_stay(s, after, session_id, other)
            &&& after.session_id == s.session_id
        }),
{
    let (after, id) = s.tool_call_item(session_id, part_id);
    assert(after.session_turns.insert(session_id, after.turn(session_id)) =~= after.session_turns);
}

/// Identifiers tell what they are of and their number.
pub proof fn law_identifiers_tell_their_number(n: u64)
    ensures
        session_state::item_id(n) == "item_"@ + text::decimal(n as nat),
        session_state::synthetic_turn_id(n) == "turn_rest_"@ + text::decimal(n as nat),
        n < u64::MAX ==> session_state::counted(n) == n + 1,
        session_state::counted(u64::MAX) == 0,
{
}

// ---------------------------------------------------------------------------
// Turns
// ---------------------------------------------------------------------------

/// A started turn is the one of the active session; no agent message, no reasoning and no tool item of
/// an earlier turn is left in it, and no other session is touched.
pub proof fn law_started_turn_is_fresh(s: StateView, session_id: Seq<char>, turn_id: Seq<char>, other: Seq<char>)
    ensures
        ({
            let after = s.start_turn(session_id, turn_id);
            let turn = after.turn(session_id);
            &&& after.session_id == session_id
            &&& turn.turn_id == turn_id
            &&& turn.agent_message_item_id is None && turn.agent_message_part_id is None && turn.agent_message_text_len
                == 0
            &&& turn.reasoning_item_id is None && turn.reasoning_part_id is None && turn.reasoning_text_len == 0
            &&& turn.tool_call_items == Map::<Seq<char>, Seq<char>>::empty()
            &&& s.turn(session_id).user_message_item_id is None ==> turn.user_message_text.len() == 0
            &&& others_stay(s, after, session_id, other)
        }),
{
}

/// A turn that ended leaves nothing of itself, and no other session is touched; a session of which
/// nothing is known stays so.
pub proof fn law_ended_turn_leaves_nothing(s: StateView, session_id: Seq<char>, other: Seq<char>)
    ensures
        ({
            let after = s.finish_turn(session_id);
            let turn = after.turn(session_id);
            &&& turn.turn_id.len() == 0
            &&& turn.agent_message_item_id is None && turn.agent_message_part_id is None && turn.agent_message_text_len
                == 0
            &&& turn.reasoning_item_id is None && turn.reasoning_part_id is None && turn.reasoning_text_len == 0
            &&& turn.tool_call_items == Map::<Seq<char>, Seq<char>>::empty()
            &&& turn.user_message_item_id is None && turn.user_message_text.len() == 0
            &&& others_stay(s, after, session_id, other)
            &&& after.session_id == s.session_id && after.item_counter == s.item_counter
            &&& after.session_turns.dom() == s.session_turns.dom()
        }),
{
    let after = s.finish_turn(session_id);
    assert(after.session_turns.dom() =~= s.session_turns.dom());
}

/// Before a replay nothing is left of a session's turn but the identifier of its user message.
pub proof fn law_replay_starts_afresh(s: StateView, session_id: Seq<char>, other: Seq<char>)
    ensures
        ({
            let after = s.prepare_replay(session_id);
            let turn = after.turn(session_id);
            &&& after.session_id == session_id
            &&& turn.turn_id.len() == 0
            &&& turn.agent_message_item_id is None && turn.agent_message_part_id is None && turn.agent_message_text_len
                == 0
            &&& turn.reasoning_item_id is None && turn.reasoning_part_id is None && turn.reasoning_text_len == 0
            &&& turn.tool_call_items == Map::<Seq<char>, Seq<char>>::empty()
            &&& turn.user_message_item_id == s.turn(session_id).user_message_item_id
            &&& turn.user_message_text.len() == 0
            &&& others_stay(s, after, session_id, other)
            &&& after.item_counter == s.item_counter
        }),
{
}

/// At the boundary between two replayed user messages the active session forgets its streams, its tool
/// items and its user message, and keeps its turn.
pub proof fn law_boundary_forgets_the_user_message(s: StateView, other: Seq<char>)
    ensures
        ({
            let after = s.mark_new_replayed_user_message_boundary();
            let turn = after.turn(s.session_id);
            &&& turn.turn_id == s.turn(s.session_id).turn_id
            &&& turn.agent_message_item_id is None && turn.agent_message_part_id is None && turn.agent_message_text_len
                == 0
            &&& turn.reasoning_item_id is None && turn.reasoning_part_id is None && turn.reasoning_text_len == 0
            &&& turn.tool_call_items == Map::<Seq<char>, Seq<char>>::empty()
            &&& turn.user_message_item_id is None && turn.user_message_text.len() == 0
            &&& others_stay(s, after, s.session_id, other)
            &&& after.session_id == s.session_id && after.item_counter == s.item_counter
        }),
{
}

/// An agent message that ended is forgotten, and nothing else is.
pub proof fn law_ended_agent_message_is_forgotten(s: StateView, session_id: Seq<char>, other: Seq<char>)
    ensures
        ({
            let after = s.reset_agent_message_item(session_id);
            let before = s.turn(session_id);
            &&& after.turn(session_id) == (TurnView {
                agent_message_item_id: None,
                agent_message_part_id: None,
                agent_message_text_len: 0,
                ..before
            })
            &&& others_stay(s, after, session_id, other)
            &&& after.session_id == s.session_id && after.item_counter == s.item_counter
        }),
{
}

/// A part that is removed takes with it what is remembered of it alone; a part without an identifier
/// takes nothing.
pub proof fn law_removed_part_leaves_the_others(
    s: StateView,
    session_id: Seq<char>,
    part_id: Seq<char>,
    other: Seq<char>,
)
    ensures
        ({
            let after = s.remove_part_mapping(session_id, part_id);
            let before = s.turn(session_id);
            let turn = after.turn(session_id);
            &&& part_id.len() == 0 ==> after == s
            &&& turn.turn_id == before.turn_id
            &&& turn.user_message_item_id == before.user_message_item_id && turn.user_message_text
                == before.user_message_text
            &&& before.agent_message_part_id != Some(part_id) ==> turn.agent_message_item_id
                == before.agent_message_item_id && turn.agent_message_part_id == before.agent_message_part_id
                && turn.agent_message_text_len == before.agent_message_text_len
            &&& before.reasoning_part_id != Some(part_id) ==> turn.reasoning_item_id == before.reasoning_item_id
                && turn.reasoning_part_id == before.reasoning_part_id && turn.reasoning_text_len
                == before.reasoning_text_len
            &&& other != part_id ==> session_state::lookup(turn.tool_call_items, other) == session_state::lookup(
                before.tool_call_items,
                other,
            )
            &&& others_stay(s, after, session_id, other)
            &&& after.session_id == s.session_id && after.item_counter == s.item_counter
        }),
{
}

// ---------------------------------------------------------------------------
// Roles
// ---------------------------------------------------------------------------

/// A message of which the role was told is known by it; white space does not count, and a blank role or
/// identifier tells nothing. Other messages keep their roles.
pub proof fn law_told_role_is_remembered(s: StateView, id: Seq<char>, role: Seq<char>, other: Seq<char>)
    ensures
        ({
            let after = s.remember_message_role(id, role);
            let told = !reading::is_blank(id) && !reading::is_blank(role);
            &&& told ==> (after.is_user_message_id(id) <==> text::trim_of(role) == "user"@)
            &&& !told ==> after == s
            &&& text::trim_of(other) != text::trim_of(id) ==> (after.is_user_message_id(other)
                <==> s.is_user_message_id(other))
            &&& after.session_id == s.session_id && after.session_turns == s.session_turns && after.item_counter
                == s.item_counter && after.model_context_windows == s.model_context_windows
        }),
{
    text_laws::law_trimming_leaves_the_rest(id);
    text_laws::law_trimming_leaves_the_rest(role);
}

// ---------------------------------------------------------------------------
// Context windows
// ---------------------------------------------------------------------------

proof fn lemma_slash(a: Seq<char>, b: Seq<char>)
    requires
        !a.contains('/'),
    ensures
        text::split_char_of(a + "/"@ + b, '/') == Some((a, b)),
{
    reveal_strlit("/");
    let s = a + "/"@ + b;
    text_laws::law_first_character_is_found(s, '/', 0);
    assert(s[a.len() as int] == '/');
    assert forall|k: int| 0 <= k < a.len() implies #[trigger] s[k] != '/' by {
        assert(a.contains(a[k]));
    }
    assert(s.take(a.len() as int) =~= a);
    assert(s.skip(a.len() as int + 1) =~= b);
}

/// The window of a model is the one under the names of its provider and its own; where there is none
/// and its own name is that of another provider's model, it is the one under that name, or else under
/// the provider's and the end of that name.
pub proof fn law_window_is_found_by_name(
    s: StateView,
    provider_id: Seq<char>,
    model_id: Seq<char>,
    a: Seq<char>,
    b: Seq<char>,
)
    ensures
        ({
            let p = text::trim_of(provider_id);
            let m = text::trim_of(model_id);
            let windows = s.model_context_windows;
            let shown = s.model_context_window(provider_id, model_id);
            let by_both = p.len() > 0 && m.len() > 0 && windows.contains_key(p + "/"@ + m);
            &&& by_both ==> shown == Some(windows[p + "/"@ + m])
            &&& !by_both && !m.contains('/') ==> shown is None
            &&& !by_both && !a.contains('/') && m == a + "/"@ + b ==> {
                &&& windows.contains_key(m) ==> shown == Some(windows[m])
                &&& !windows.contains_key(m) && p.len() > 0 && windows.contains_key(p + "/"@ + b) ==> shown == Some(
                    windows[p + "/"@ + b],
                )
                &&& !windows.contains_key(m) && (p.len() == 0 || !windows.contains_key(p + "/"@ + b)) ==> shown is None
            }
        }),
{
    let m = text::trim_of(model_id);
    text_laws::law_first_character_is_found(m, '/', 0);
    if let Some(i) = text::char_from(m, '/', 0) {
        assert(m.contains(m[i]));
    }
    if !a.contains('/') {
        lemma_slash(a, b);
    }
}

/// Under a model's names stands the window that its provider tells, where that is a count; other names
/// are not touched.
pub proof fn law_model_tells_its_window(
    windows: Map<Seq<char>, u64>,
    provider_id: Seq<char>,
    models: Seq<(Seq<char>, JsonView)>,
    key: Seq<char>,
    model: JsonView,
    other: Seq<char>,
)
    ensures
        ({
            let before = event_translator::windows_with_models(windows, provider_id, models);
            let after = event_translator::windows_with_models(windows, provider_id, models.push((key, model)));
            let own = text::trim_of(reading::string_at(model, "id"@));
            let id = if own.len() > 0 {
                own
            } else {
                key
            };
            let name = provider_id + "/"@ + id;
            let told = event_translator::count_of(reading::within(model.get("limit"@), "context"@));
            &&& event_translator::windows_with_models(windows, provider_id, Seq::empty()) == windows
            &&& told is Some && id.len() > 0 ==> after.contains_key(name) && after[name] == told->0
            &&& told is Some && id.len() > 0 && other != name ==> session_state::lookup(after, other)
                == session_state::lookup(before, other)
            &&& told is None || id.len() == 0 ==> after == before
        }),
{
    lemma_state_names();
    assert(models.push((key, model)).drop_last() =~= models);
    assert(models.push((key, model)).last() == (key, model));
    assert(text::trim_of(Seq::<char>::empty()).len() == 0);
}

/// The windows of the providers are added one provider after the other, under its identifier without
/// white space around it; one without an identifier or without models adds none.
pub proof fn law_provider_tells_its_windows(providers: Seq<JsonView>, provider: JsonView)
    ensures
        ({
            let before = event_translator::windows_of(providers);
            let after = event_translator::windows_of(providers.push(provider));
            let id = text::trim_of(reading::string_at(provider, "id"@));
            &&& event_translator::windows_of(Seq::empty()) == Map::<Seq<char>, u64>::empty()
            &&& id.len() == 0 ==> after == before
            &&& !(provider.get("models"@) matches Some(JsonView::Object(_))) ==> after == before
            &&& id.len() > 0 ==> (provider.get("models"@) matches Some(JsonView::Object(models)) ==> after
                == event_translator::windows_with_models(before, id, models))
        }),
{
    lemma_state_names();
    assert(""@ =~= Seq::<char>::empty());
    assert(providers.push(provider).drop_last() =~= providers);
    assert(providers.push(provider).last() == provider);
}

/// The windows of a configuration are those of its providers.
pub proof fn law_windows_are_those_of_the_configuration(config: JsonView)
    ensures
        match config.get("providers"@) {
            Some(JsonView::Array(providers)) => event_translator::context_windows(config)
                == event_translator::windows_of(providers),
            _ => event_translator::context_windows(config) == Map::<Seq<char>, u64>::empty(),
        },
{
}

} // verus!
