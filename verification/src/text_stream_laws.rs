//! Streams of text: what was sent, put together, is the text, and nothing is sent twice.

use vstd::prelude::*;

use crate::event_translator;
use crate::json;
use crate::json::JsonView;
use crate::session_state::StateView;
use crate::text;

verus! {

/// Deltas are counted: when `sent` was sent of a text part, and a delta of that part follows, the
/// delta is sent as it is, and `sent` with the delta behind it counts as sent.
pub proof fn law_delta_is_sent_and_counted(
    s: StateView,
    thread_id: Seq<char>,
    part_id: Seq<char>,
    sent: Seq<char>,
    full_text: Seq<char>,
    delta: Seq<char>,
)
    requires
        s.turn(thread_id).agent_message_part_id == Some(part_id),
        s.turn(thread_id).agent_message_text_len == text::byte_len_of(sent),
        delta.len() > 0,
    ensures
        ({
            let (after, events) = event_translator::agent_text_updated(
                s,
                thread_id,
                Some(part_id),
                full_text,
                delta,
            );
            let id = s.agent_message_item(thread_id).1;
            &&& events.len() == 1
            &&& events[0] == event_translator::delta_message(
                "item/agentMessage/delta"@,
                thread_id,
                s.turn(thread_id).turn_id,
                id,
                delta,
            )
            &&& after.turn(thread_id).agent_message_text_len == text::byte_len_of(sent + delta)
            &&& after.turn(thread_id).agent_message_part_id == Some(part_id)
        }),
{
    text::lemma_byte_len_concat(sent, delta);
}

/// Nothing is sent twice: when `sent` was sent of a text part, and the whole text of the part
/// follows, only what stands behind `sent` is sent, and nothing where nothing stands there.
pub proof fn law_full_text_sends_only_the_rest(
    s: StateView,
    thread_id: Seq<char>,
    part_id: Seq<char>,
    sent: Seq<char>,
    rest: Seq<char>,
)
    requires
        s.turn(thread_id).agent_message_part_id == Some(part_id),
        s.turn(thread_id).agent_message_text_len == text::byte_len_of(sent),
    ensures
        ({
            let (after, events) = event_translator::agent_text_updated(
                s,
                thread_id,
                Some(part_id),
                sent + rest,
                Seq::empty(),
            );
            let id = s.agent_message_item(thread_id).1;
            &&& if rest.len() == 0 {
                events == Seq::<JsonView>::empty()
            } else {
                &&& events.len() == 1
                &&& events[0] == event_translator::delta_message(
                    "item/agentMessage/delta"@,
                    thread_id,
                    s.turn(thread_id).turn_id,
                    id,
                    rest,
                )
            }
            &&& after.turn(thread_id).agent_message_text_len == text::byte_len_of(sent + rest)
            &&& after.turn(thread_id).agent_message_part_id == Some(part_id)
        }),
{
    lemma_unseen_rest(sent, rest);
    assert(rest.len() == 0 ==> sent + rest =~= sent);
}

pub proof fn lemma_byte_len_zero(s: Seq<char>)
    ensures
        text::byte_len_of(s) == 0 <==> s.len() == 0,
{
    if s.len() > 0 {
        assert(vstd::utf8::encode_scalar(s[0] as u32).len() > 0);
    }
}

pub proof fn lemma_unseen_rest(sent: Seq<char>, rest: Seq<char>)
    ensures
        event_translator::unseen(sent + rest, text::byte_len_of(sent)) == (if rest.len() == 0 {
            None::<Seq<char>>
        } else {
            Some(rest)
        }),
{
    text::lemma_after_bytes_concat(sent, rest);
    text::lemma_byte_len_concat(sent, rest);
    lemma_byte_len_zero(sent);
    lemma_byte_len_zero(rest);
    if sent.len() == 0 {
        assert(sent + rest =~= rest);
    }
}

/// The same holds of reasoning: what was sent of a part is not sent again with its whole text.
pub proof fn law_full_reasoning_sends_only_the_rest(
    s: StateView,
    thread_id: Seq<char>,
    part_id: Seq<char>,
    sent: Seq<char>,
    rest: Seq<char>,
)
    requires
        s.turn(thread_id).reasoning_part_id == Some(part_id),
        s.turn(thread_id).reasoning_text_len == text::byte_len_of(sent),
    ensures
        ({
            let (after, events) = event_translator::reasoning_updated(
                s,
                thread_id,
                Some(part_id),
                sent + rest,
                Seq::empty(),
            );
            let id = s.reasoning_item(thread_id).1;
            &&& if rest.len() == 0 {
                events == Seq::<JsonView>::empty()
            } else {
                &&& events.len() == 1
                &&& events[0] == event_translator::delta_message(
                    "item/reasoning/textDelta"@,
                    thread_id,
                    s.turn(thread_id).turn_id,
                    id,
                    rest,
                )
            }
            &&& after.turn(thread_id).reasoning_text_len == text::byte_len_of(sent + rest)
            &&& after.turn(thread_id).reasoning_part_id == Some(part_id)
        }),
{
    lemma_unseen_rest(sent, rest);
    assert(rest.len() == 0 ==> sent + rest =~= sent);
}

/// Deltas of reasoning are counted in the same way.
pub proof fn law_reasoning_delta_is_sent_and_counted(
    s: StateView,
    thread_id: Seq<char>,
    part_id: Seq<char>,
    sent: Seq<char>,
    full_text: Seq<char>,
    delta: Seq<char>,
)
    requires
        s.turn(thread_id).reasoning_part_id == Some(part_id),
        s.turn(thread_id).reasoning_text_len == text::byte_len_of(sent),
        delta.len() > 0,
    ensures
        ({
            let (after, events) = event_translator::reasoning_updated(
                s,
                thread_id,
                Some(part_id),
                full_text,
                delta,
            );
            let id = s.reasoning_item(thread_id).1;
            &&& events.len() == 1
            &&& events[0] == event_translator::delta_message(
                "item/reasoning/textDelta"@,
                thread_id,
                s.turn(thread_id).turn_id,
                id,
                delta,
            )
            &&& after.turn(thread_id).reasoning_text_len == text::byte_len_of(sent + delta)
            &&& after.turn(thread_id).reasoning_part_id == Some(part_id)
        }),
{
    text::lemma_byte_len_concat(sent, delta);
}

// ---------------------------------------------------------------------------
// Whole streams
// ---------------------------------------------------------------------------

/// How a part of a message grows: by a delta that comes with an update of the part, by a delta
/// that comes alone, or by an update that carries the whole text.
pub enum TextUpdate {
    Appended { full_text: Seq<char>, delta: Seq<char> },
    Streamed(Seq<char>),
    Whole(Seq<char>),
}

/// The text of a part after updates, when it was `sent` before them.
pub open spec fn text_after(sent: Seq<char>, updates: Seq<TextUpdate>) -> Seq<char>
    decreases updates.len(),
{
    if updates.len() == 0 {
        sent
    } else {
        match updates.last() {
            TextUpdate::Appended { delta, .. } => text_after(sent, updates.drop_last()) + delta,
            TextUpdate::Streamed(delta) => text_after(sent, updates.drop_last()) + delta,
            TextUpdate::Whole(t) => t,
        }
    }
}

/// Whether each update goes on where the one before it ended: no delta is empty, and each whole
/// text starts with the text so far.
pub open spec fn goes_on(sent: Seq<char>, updates: Seq<TextUpdate>) -> bool
    decreases updates.len(),
{
    updates.len() > 0 ==> {
        &&& goes_on(sent, updates.drop_last())
        &&& match updates.last() {
            TextUpdate::Appended { delta, .. } => delta.len() > 0,
            TextUpdate::Streamed(delta) => delta.len() > 0,
            TextUpdate::Whole(t) => text_after(sent, updates.drop_last()).is_prefix_of(t),
        }
    }
}

/// The text that messages send.
pub open spec fn sent_by(events: Seq<JsonView>) -> Seq<char>
    decreases events.len(),
{
    if events.len() == 0 {
        Seq::empty()
    } else {
        sent_by(events.drop_last()) + text::text_or(
            json::as_str_of(json::get_of(events.last().get("params"@), "delta"@)),
            Seq::empty(),
        )
    }
}

/// An update of a text part of the agent.
pub open spec fn text_updated(
    s: StateView,
    thread_id: Seq<char>,
    part_id: Seq<char>,
    update: TextUpdate,
) -> event_translator::Outcome {
    match update {
        TextUpdate::Appended { full_text, delta } => event_translator::agent_text_updated(
            s,
            thread_id,
            Some(part_id),
            full_text,
            delta,
        ),
        TextUpdate::Streamed(delta) => event_translator::text_delta(s, thread_id, part_id, delta),
        TextUpdate::Whole(t) => event_translator::agent_text_updated(
            s,
            thread_id,
            Some(part_id),
            t,
            Seq::empty(),
        ),
    }
}

/// Updates of a text part of the agent, one after the other: the state, and the messages.
pub open spec fn text_streamed(
    s: StateView,
    thread_id: Seq<char>,
    part_id: Seq<char>,
    updates: Seq<TextUpdate>,
) -> event_translator::Outcome
    decreases updates.len(),
{
    if updates.len() == 0 {
        (s, Seq::empty())
    } else {
        let (s1, before) = text_streamed(s, thread_id, part_id, updates.drop_last());
        let (after, events) = text_updated(s1, thread_id, part_id, updates.last());
        (after, before + events)
    }
}

/// An update of a reasoning part.
pub open spec fn reasoning_grown(
    s: StateView,
    thread_id: Seq<char>,
    part_id: Seq<char>,
    update: TextUpdate,
) -> event_translator::Outcome {
    match update {
        TextUpdate::Appended { full_text, delta } => event_translator::reasoning_updated(
            s,
            thread_id,
            Some(part_id),
            full_text,
            delta,
        ),
        TextUpdate::Streamed(delta) => event_translator::text_delta(s, thread_id, part_id, delta),
        TextUpdate::Whole(t) => event_translator::reasoning_updated(
            s,
            thread_id,
            Some(part_id),
            t,
            Seq::empty(),
        ),
    }
}

/// Updates of a reasoning part, one after the other: the state, and the messages.
pub open spec fn reasoning_streamed(
    s: StateView,
    thread_id: Seq<char>,
    part_id: Seq<char>,
    updates: Seq<TextUpdate>,
) -> event_translator::Outcome
    decreases updates.len(),
{
    if updates.len() == 0 {
        (s, Seq::empty())
    } else {
        let (s1, before) = reasoning_streamed(s, thread_id, part_id, updates.drop_last());
        let (after, events) = reasoning_grown(s1, thread_id, part_id, updates.last());
        (after, before + events)
    }
}

proof fn lemma_delta_of_message(
    method: Seq<char>,
    thread_id: Seq<char>,
    turn_id: Seq<char>,
    item_id: Seq<char>,
    delta: Seq<char>,
)
    ensures
        json::as_str_of(
            json::get_of(
                event_translator::delta_message(method, thread_id, turn_id, item_id, delta).get("params"@),
                "delta"@,
            ),
        ) == Some(delta),
{
    reveal_strlit("method");
    reveal_strlit("params");
    reveal_strlit("threadId");
    reveal_strlit("turnId");
    reveal_strlit("itemId");
    reveal_strlit("delta");
    let m = event_translator::delta_message(method, thread_id, turn_id, item_id, delta);
    let outer = m->Object_0;
    let params = outer[1].1;
    let inner = params->Object_0;
    assert("method"@[0] != "params"@[0]);
    assert("threadId"@.len() != "delta"@.len());
    assert("turnId"@.len() != "delta"@.len());
    assert("itemId"@.len() != "delta"@.len());
    reveal_with_fuel(json::entry_from, 5);
    assert(outer[0].0 == "method"@ && outer[1].0 == "params"@);
    assert(json::entry_from(outer, "params"@, 0) == Some(1int));
    assert(inner[0].0 == "threadId"@ && inner[1].0 == "turnId"@ && inner[2].0 == "itemId"@);
    assert(inner[3] == ("delta"@, JsonView::Text(delta)));
    assert(json::entry_from(inner, "delta"@, 0) == Some(3int));
}

proof fn lemma_sent_by_one(
    before: Seq<JsonView>,
    method: Seq<char>,
    thread_id: Seq<char>,
    turn_id: Seq<char>,
    item_id: Seq<char>,
    delta: Seq<char>,
)
    ensures
        ({
            let m = event_translator::delta_message(method, thread_id, turn_id, item_id, delta);
            sent_by(before + seq![m]) == sent_by(before) + delta
        }),
{
    let m = event_translator::delta_message(method, thread_id, turn_id, item_id, delta);
    lemma_delta_of_message(method, thread_id, turn_id, item_id, delta);
    assert((before + seq![m]).drop_last() =~= before);
}

/// The messages of a text part of the agent send its text, all of it and nothing twice, however
/// its deltas and whole texts follow each other. The part is not the current reasoning part.
pub proof fn law_text_is_sent_once(
    s: StateView,
    thread_id: Seq<char>,
    part_id: Seq<char>,
    sent: Seq<char>,
    updates: Seq<TextUpdate>,
)
    requires
        part_id.len() > 0,
        s.turn(thread_id).reasoning_part_id != Some(part_id),
        s.turn(thread_id).agent_message_part_id == Some(part_id),
        s.turn(thread_id).agent_message_text_len == text::byte_len_of(sent),
        goes_on(sent, updates),
    ensures
        ({
            let (after, events) = text_streamed(s, thread_id, part_id, updates);
            &&& sent + sent_by(events) == text_after(sent, updates)
            &&& after.turn(thread_id).agent_message_part_id == Some(part_id)
            &&& after.turn(thread_id).reasoning_part_id != Some(part_id)
            &&& after.turn(thread_id).agent_message_text_len == text::byte_len_of(text_after(sent, updates))
        }),
    decreases updates.len(),
{
    if updates.len() > 0 {
        let init = updates.drop_last();
        law_text_is_sent_once(s, thread_id, part_id, sent, init);
        let (s1, before) = text_streamed(s, thread_id, part_id, init);
        let have = text_after(sent, init);
        let turn_id = s1.turn(thread_id).turn_id;
        let id = s1.agent_message_item(thread_id).1;
        let (after, events) = text_updated(s1, thread_id, part_id, updates.last());
        let more = match updates.last() {
            TextUpdate::Appended { full_text, delta } => {
                law_delta_is_sent_and_counted(s1, thread_id, part_id, have, full_text, delta);
                delta
            },
            TextUpdate::Streamed(delta) => {
                text::lemma_byte_len_concat(have, delta);
                delta
            },
            TextUpdate::Whole(t) => {
                let rest = t.skip(have.len() as int);
                assert(have + rest =~= t);
                law_full_text_sends_only_the_rest(s1, thread_id, part_id, have, rest);
                rest
            },
        };
        let m = event_translator::delta_message("item/agentMessage/delta"@, thread_id, turn_id, id, more);
        if more.len() > 0 {
            assert(events =~= seq![m]);
            lemma_sent_by_one(before, "item/agentMessage/delta"@, thread_id, turn_id, id, more);
        } else {
            assert(before + events =~= before);
        }
        assert(sent + (sent_by(before) + more) =~= (sent + sent_by(before)) + more);
    } else {
        assert(sent + sent_by(Seq::<JsonView>::empty()) =~= sent);
    }
}

/// The messages of a reasoning part send its text, all of it and nothing twice.
pub proof fn law_reasoning_is_sent_once(
    s: StateView,
    thread_id: Seq<char>,
    part_id: Seq<char>,
    sent: Seq<char>,
    updates: Seq<TextUpdate>,
)
    requires
        s.turn(thread_id).reasoning_part_id == Some(part_id),
        s.turn(thread_id).reasoning_text_len == text::byte_len_of(sent),
        goes_on(sent, updates),
    ensures
        ({
            let (after, events) = reasoning_streamed(s, thread_id, part_id, updates);
            &&& sent + sent_by(events) == text_after(sent, updates)
            &&& after.turn(thread_id).reasoning_part_id == Some(part_id)
            &&& after.turn(thread_id).reasoning_text_len == text::byte_len_of(text_after(sent, updates))
        }),
    decreases updates.len(),
{
    if updates.len() > 0 {
        let init = updates.drop_last();
        law_reasoning_is_sent_once(s, thread_id, part_id, sent, init);
        let (s1, before) = reasoning_streamed(s, thread_id, part_id, init);
        let have = text_after(sent, init);
        let turn_id = s1.turn(thread_id).turn_id;
        let id = s1.reasoning_item(thread_id).1;
        let (after, events) = reasoning_grown(s1, thread_id, part_id, updates.last());
        let more = match updates.last() {
            TextUpdate::Appended { full_text, delta } => {
                law_reasoning_delta_is_sent_and_counted(s1, thread_id, part_id, have, full_text, delta);
                delta
            },
            TextUpdate::Streamed(delta) => {
                text::lemma_byte_len_concat(have, delta);
                delta
            },
            TextUpdate::Whole(t) => {
                let rest = t.skip(have.len() as int);
                assert(have + rest =~= t);
                law_full_reasoning_sends_only_the_rest(s1, thread_id, part_id, have, rest);
                rest
            },
        };
        let m = event_translator::delta_message("item/reasoning/textDelta"@, thread_id, turn_id, id, more);
        if more.len() > 0 {
            assert(events =~= seq![m]);
            lemma_sent_by_one(before, "item/reasoning/textDelta"@, thread_id, turn_id, id, more);
        } else {
            assert(before + events =~= before);
        }
        assert(sent + (sent_by(before) + more) =~= (sent + sent_by(before)) + more);
    } else {
        assert(sent + sent_by(Seq::<JsonView>::empty()) =~= sent);
    }
}

proof fn lemma_text_part_is_entered(
    s: StateView,
    thread_id: Seq<char>,
    part_id: Seq<char>,
    updates: Seq<TextUpdate>,
)
    requires
        part_id.len() > 0,
        s.turn(thread_id).reasoning_part_id != Some(part_id),
        updates.len() > 0,
    ensures
        text_streamed(s, thread_id, part_id, updates) == text_streamed(
            event_translator::text_part_entered(s, thread_id, Some(part_id)),
            thread_id,
            part_id,
            updates,
        ),
    decreases updates.len(),
{
    let s1 = event_translator::text_part_entered(s, thread_id, Some(part_id));
    let init = updates.drop_last();
    if updates.len() > 1 {
        lemma_text_part_is_entered(s, thread_id, part_id, init);
    } else {
        assert(event_translator::text_part_entered(s1, thread_id, Some(part_id)).session_turns =~= s1.session_turns);
        assert(text_streamed(s, thread_id, part_id, init) == (s, Seq::<JsonView>::empty()));
        assert(text_streamed(s1, thread_id, part_id, init) == (s1, Seq::<JsonView>::empty()));
    }
}

/// A text part of which nothing was sent is sent from its start on, also where another part was
/// sent before it, and however its first update comes. It is not the current reasoning part: a
/// delta of that one is reasoning.
pub proof fn law_new_text_part_is_sent_whole(
    s: StateView,
    thread_id: Seq<char>,
    part_id: Seq<char>,
    updates: Seq<TextUpdate>,
)
    requires
        part_id.len() > 0,
        s.turn(thread_id).agent_message_part_id != Some(part_id),
        s.turn(thread_id).reasoning_part_id != Some(part_id),
        goes_on(Seq::empty(), updates),
    ensures
        sent_by(text_streamed(s, thread_id, part_id, updates).1) == text_after(Seq::empty(), updates),
{
    if updates.len() > 0 {
        let s1 = event_translator::text_part_entered(s, thread_id, Some(part_id));
        lemma_text_part_is_entered(s, thread_id, part_id, updates);
        lemma_byte_len_zero(Seq::empty());
        law_text_is_sent_once(s1, thread_id, part_id, Seq::empty(), updates);
        let out = sent_by(text_streamed(s1, thread_id, part_id, updates).1);
        assert(Seq::<char>::empty() + out =~= out);
    }
}

proof fn lemma_reasoning_part_is_entered(
    s: StateView,
    thread_id: Seq<char>,
    part_id: Seq<char>,
    updates: Seq<TextUpdate>,
)
    requires
        updates.len() > 0,
        updates[0] !is Streamed,
    ensures
        reasoning_streamed(s, thread_id, part_id, updates) == reasoning_streamed(
            event_translator::reasoning_part_entered(s, thread_id, Some(part_id)),
            thread_id,
            part_id,
            updates,
        ),
    decreases updates.len(),
{
    let s1 = event_translator::reasoning_part_entered(s, thread_id, Some(part_id));
    let init = updates.drop_last();
    if updates.len() > 1 {
        lemma_reasoning_part_is_entered(s, thread_id, part_id, init);
    } else {
        assert(event_translator::reasoning_part_entered(s1, thread_id, Some(part_id)).session_turns
            =~= s1.session_turns);
        assert(reasoning_streamed(s, thread_id, part_id, init) == (s, Seq::<JsonView>::empty()));
        assert(reasoning_streamed(s1, thread_id, part_id, init) == (s1, Seq::<JsonView>::empty()));
    }
}

/// A reasoning part of which nothing was sent is sent from its start on, where its first update is
/// not a delta that comes alone: such a delta of a part that is not known is text of the agent.
pub proof fn law_new_reasoning_part_is_sent_whole(
    s: StateView,
    thread_id: Seq<char>,
    part_id: Seq<char>,
    updates: Seq<TextUpdate>,
)
    requires
        s.turn(thread_id).reasoning_part_id != Some(part_id),
        updates.len() > 0,
        updates[0] !is Streamed,
        goes_on(Seq::empty(), updates),
    ensures
        sent_by(reasoning_streamed(s, thread_id, part_id, updates).1) == text_after(Seq::empty(), updates),
{
    let s1 = event_translator::reasoning_part_entered(s, thread_id, Some(part_id));
    lemma_reasoning_part_is_entered(s, thread_id, part_id, updates);
    lemma_byte_len_zero(Seq::empty());
    law_reasoning_is_sent_once(s1, thread_id, part_id, Seq::empty(), updates);
    let out = sent_by(reasoning_streamed(s1, thread_id, part_id, updates).1);
    assert(Seq::<char>::empty() + out =~= out);
}

} // verus!
