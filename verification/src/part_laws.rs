//! Parts of messages, from the events that bring them to the messages that show them: every text
//! is shown once, and all of it.

use vstd::prelude::*;

use crate::event_laws;
use crate::event_translator;
use crate::json::JsonView;
use crate::reading;
use crate::session_state::{StateView, TurnView};
use crate::text;
use crate::text_stream_laws;
use crate::text_stream_laws::TextUpdate;
use crate::tool_items::DiffsView;

verus! {

proof fn lemma_part_names()
    ensures
        ""@.len() == 0,
        "agent"@.len() == 5,
        "agent"@[0] == 'a',
        "delta"@.len() == 5,
        "delta"@[0] == 'd',
        "field"@.len() == 5,
        "field"@[0] == 'f',
        "id"@.len() == 2,
        "message.part.delta"@.len() == 18,
        "message.part.removed"@.len() == 20,
        "message.part.removed"@[13] == 'r',
        "message.part.updated"@.len() == 20,
        "message.part.updated"@[13] == 'u',
        "message.updated"@.len() == 15,
        "message.updated"@[0] == 'm',
        "messageID"@.len() == 9,
        "messageID"@[0] == 'm',
        "messageID"@[8] == 'D',
        "messageId"@.len() == 9,
        "messageId"@[0] == 'm',
        "messageId"@[8] == 'd',
        "part"@.len() == 4,
        "part"@[0] == 'p',
        "partID"@.len() == 6,
        "permission.asked"@.len() == 16,
        "permission.asked"@[0] == 'p',
        "properties"@.len() == 10,
        "question.asked"@.len() == 14,
        "question.asked"@[0] == 'q',
        "question.rejected"@.len() == 17,
        "question.replied"@.len() == 16,
        "question.replied"@[0] == 'q',
        "reasoning"@.len() == 9,
        "reasoning"@[0] == 'r',
        "session.created"@.len() == 15,
        "session.created"@[0] == 's',
        "session.created"@[8] == 'c',
        "session.error"@.len() == 13,
        "session.idle"@.len() == 12,
        "session.idle"@[0] == 's',
        "session.status"@.len() == 14,
        "session.status"@[0] == 's',
        "session.updated"@.len() == 15,
        "session.updated"@[0] == 's',
        "session.updated"@[8] == 'u',
        "sessionID"@.len() == 9,
        "sessionID"@[0] == 's',
        "subtask"@.len() == 7,
        "text"@.len() == 4,
        "text"@[0] == 't',
        "text"@[1] == 'e',
        "todo.updated"@.len() == 12,
        "todo.updated"@[0] == 't',
        "tool"@.len() == 4,
        "tool"@[0] == 't',
        "tool"@[1] == 'o',
        "type"@.len() == 4,
        "type"@[0] == 't',
        "type"@[1] == 'y',
{
    reveal_strlit("");
    reveal_strlit("agent");
    reveal_strlit("delta");
    reveal_strlit("field");
    reveal_strlit("id");
    reveal_strlit("message.part.delta");
    reveal_strlit("message.part.removed");
    reveal_strlit("message.part.updated");
    reveal_strlit("message.updated");
    reveal_strlit("messageID");
    reveal_strlit("messageId");
    reveal_strlit("part");
    reveal_strlit("partID");
    reveal_strlit("permission.asked");
    reveal_strlit("properties");
    reveal_strlit("question.asked");
    reveal_strlit("question.rejected");
    reveal_strlit("question.replied");
    reveal_strlit("reasoning");
    reveal_strlit("session.created");
    reveal_strlit("session.error");
    reveal_strlit("session.idle");
    reveal_strlit("session.status");
    reveal_strlit("session.updated");
    reveal_strlit("sessionID");
    reveal_strlit("subtask");
    reveal_strlit("text");
    reveal_strlit("todo.updated");
    reveal_strlit("tool");
    reveal_strlit("type");
}

/// Whether an event tells of an update of a part of a message: a delta that comes alone, or an
/// update of the part with or without a delta.
pub open spec fn tells(
    event: JsonView,
    session_id: Seq<char>,
    message_id: Seq<char>,
    part_id: Seq<char>,
    kind: Seq<char>,
    update: TextUpdate,
) -> bool {
    let p = event.get("properties"@)->0;
    let part = p.get("part"@)->0;
    &&& event.get("properties"@) is Some
    &&& match update {
        TextUpdate::Streamed(delta) => {
            &&& event.get("type"@) == reading::found("message.part.delta"@)
            &&& p.get("sessionID"@) == reading::found(session_id)
            &&& p.get("messageID"@) == reading::found(message_id)
            &&& p.get("partID"@) == reading::found(part_id)
            &&& p.get("field"@) is None || p.get("field"@) == reading::found("text"@)
            &&& p.get("delta"@) == reading::found(delta)
        },
        TextUpdate::Appended { full_text, delta } => {
            &&& event.get("type"@) == reading::found("message.part.updated"@)
            &&& p.get("part"@) is Some
            &&& p.get("delta"@) == reading::found(delta)
            &&& part.get("type"@) == reading::found(kind)
            &&& part.get("sessionID"@) == reading::found(session_id)
            &&& part.get("messageID"@) == reading::found(message_id)
            &&& part.get("id"@) == reading::found(part_id)
            &&& part.get("text"@) == reading::found(full_text)
        },
        TextUpdate::Whole(full_text) => {
            &&& event.get("type"@) == reading::found("message.part.updated"@)
            &&& p.get("part"@) is Some
            &&& p.get("delta"@) is None
            &&& part.get("type"@) == reading::found(kind)
            &&& part.get("sessionID"@) == reading::found(session_id)
            &&& part.get("messageID"@) == reading::found(message_id)
            &&& part.get("id"@) == reading::found(part_id)
            &&& part.get("text"@) == reading::found(full_text)
        },
    }
}

/// Whether events tell of the updates of a part, one each.
pub open spec fn all_tell(
    events: Seq<(JsonView, DiffsView)>,
    session_id: Seq<char>,
    message_id: Seq<char>,
    part_id: Seq<char>,
    kind: Seq<char>,
    updates: Seq<TextUpdate>,
) -> bool {
    &&& events.len() == updates.len()
    &&& forall|i: int|
        0 <= i < events.len() ==> tells(
            (#[trigger] events[i]).0,
            session_id,
            message_id,
            part_id,
            kind,
            updates[i],
        )
}

/// What an event does.
#[verifier::opaque]
pub open spec fn outcome(event: JsonView, s: StateView, diffs: DiffsView) -> (StateView, Seq<JsonView>) {
    event_translator::sse_event(event, s, diffs)
}

/// The state after events, and all messages for them.
pub open spec fn translated(s: StateView, events: Seq<(JsonView, DiffsView)>) -> (StateView, Seq<JsonView>)
    decreases events.len(),
{
    if events.len() == 0 {
        (s, Seq::empty())
    } else {
        let (s1, before) = translated(s, events.drop_last());
        let (after, messages) = outcome(events.last().0, s1, events.last().1);
        (after, before + messages)
    }
}

/// Whether a message is known to be the user's.
pub open spec fn is_by_user(s: StateView, message_id: Seq<char>) -> bool {
    let id = text::trim_of(message_id);
    s.message_roles.contains_key(id) && s.message_roles[id] == "user"@
}

/// The text after one more update.
pub open spec fn grown(have: Seq<char>, update: TextUpdate) -> Seq<char> {
    match update {
        TextUpdate::Appended { delta, .. } => have + delta,
        TextUpdate::Streamed(delta) => have + delta,
        TextUpdate::Whole(t) => t,
    }
}

/// Whether an update goes on from a text.
pub open spec fn follows(have: Seq<char>, update: TextUpdate) -> bool {
    match update {
        TextUpdate::Appended { delta, .. } => delta.len() > 0,
        TextUpdate::Streamed(delta) => delta.len() > 0,
        TextUpdate::Whole(t) => have.is_prefix_of(t),
    }
}

// ---------------------------------------------------------------------------
// Messages of the user
// ---------------------------------------------------------------------------

proof fn lemma_user_names()
    ensures
        "content"@.len() == 7,
        "id"@.len() == 2,
        "text"@.len() == 4,
        "text"@[1] == 'e',
        "type"@.len() == 4,
        "type"@[1] == 'y',
        "userMessage"@.len() == 11,
{
    reveal_strlit("content");
    reveal_strlit("id");
    reveal_strlit("text");
    reveal_strlit("type");
    reveal_strlit("userMessage");
}

/// The text of the user message that a message shows.
pub open spec fn shown_text(m: JsonView) -> Option<JsonView> {
    match reading::item_field(m, "content"@) {
        Some(JsonView::Array(items)) => if items.len() == 1 {
            items[0].get("text"@)
        } else {
            None
        },
        _ => None,
    }
}

/// Whether a message shows the user message of a session with a text.
pub open spec fn shows_user_text(m: JsonView, session_id: Seq<char>, item_id: Seq<char>, whole: Seq<char>) -> bool {
    &&& reading::has_method(m, "item/completed"@)
    &&& reading::param(m, "threadId"@) == reading::found(session_id)
    &&& reading::item_field(m, "id"@) == reading::found(item_id)
    &&& reading::item_field(m, "type"@) == reading::found("userMessage"@)
    &&& shown_text(m) == reading::found(whole)
}

proof fn lemma_user_message_shows(session_id: Seq<char>, item_id: Seq<char>, whole: Seq<char>)
    ensures
        shows_user_text(
            event_translator::item_message(
                "item/completed"@,
                session_id,
                event_translator::user_message_item(item_id, event_translator::text_content(whole)),
            ),
            session_id,
            item_id,
            whole,
        ),
{
    broadcast use reading::group_reading;
    event_laws::lemma_item_messages_read();
    lemma_user_names();
}

proof fn lemma_user_step(
    event: JsonView,
    s: StateView,
    diffs: DiffsView,
    session_id: Seq<char>,
    message_id: Seq<char>,
    part_id: Seq<char>,
    update: TextUpdate,
)
    requires
        session_id.len() > 0,
        tells(event, session_id, message_id, part_id, "text"@, update),
        is_by_user(s, message_id),
        follows(s.turn(session_id).user_message_text, update),
    ensures
        ({
            let (after, messages) = outcome(event, s, diffs);
            let have = s.turn(session_id).user_message_text;
            let whole = grown(have, update);
            let turn = after.turn(session_id);
            &&& turn.user_message_text == whole
            &&& is_by_user(after, message_id)
            &&& whole == have ==> messages.len() == 0
            &&& whole != have ==> {
                &&& turn.user_message_item_id is Some
                &&& messages.len() == 1
                &&& shows_user_text(messages[0], session_id, turn.user_message_item_id->0, whole)
            }
            &&& s.turn(session_id).user_message_item_id is Some ==> turn.user_message_item_id == s.turn(
                session_id,
            ).user_message_item_id
        }),
{
    reveal(outcome);
    lemma_part_names();
    let have = s.turn(session_id).user_message_text;
    let whole = grown(have, update);
    let s1 = s.with_session(session_id);
    let id = s1.user_message_item(session_id).1;
    lemma_user_message_shows(session_id, id, whole);
    assert(""@ =~= Seq::<char>::empty());
    if let TextUpdate::Whole(t) = update {
        let rest = t.skip(have.len() as int);
        assert(t.take(have.len() as int) =~= have);
        assert(have + rest =~= t);
        assert(rest.len() == 0 ==> t =~= have);
    }
    assert(whole.len() == have.len() ==> whole =~= have);
}

/// The text of the user is shown once, and all of it, however its deltas and whole texts follow
/// each other: the message that is sent last shows the text of the part, put behind what the
/// message had before, nothing is sent where nothing is new, and all are about one item.
pub proof fn law_user_text_is_shown_once(
    s: StateView,
    events: Seq<(JsonView, DiffsView)>,
    session_id: Seq<char>,
    message_id: Seq<char>,
    part_id: Seq<char>,
    updates: Seq<TextUpdate>,
)
    requires
        session_id.len() > 0,
        all_tell(events, session_id, message_id, part_id, "text"@, updates),
        is_by_user(s, message_id),
        text_stream_laws::goes_on(s.turn(session_id).user_message_text, updates),
    ensures
        ({
            let (after, messages) = translated(s, events);
            let have = s.turn(session_id).user_message_text;
            let whole = text_stream_laws::text_after(have, updates);
            let turn = after.turn(session_id);
            &&& turn.user_message_text == whole
            &&& is_by_user(after, message_id)
            &&& messages.len() == 0 ==> whole == have
            &&& messages.len() > 0 ==> turn.user_message_item_id is Some && shows_user_text(
                messages.last(),
                session_id,
                turn.user_message_item_id->0,
                whole,
            )
            &&& s.turn(session_id).user_message_item_id is Some ==> turn.user_message_item_id == s.turn(
                session_id,
            ).user_message_item_id
        }),
    decreases events.len(),
{
    if events.len() > 0 {
        let init = events.drop_last();
        let before = updates.drop_last();
        assert forall|i: int| 0 <= i < init.len() implies tells(
            (#[trigger] init[i]).0,
            session_id,
            message_id,
            part_id,
            "text"@,
            before[i],
        ) by {
            assert(init[i] == events[i]);
        }
        law_user_text_is_shown_once(s, init, session_id, message_id, part_id, before);
        let s1 = translated(s, init).0;
        assert(tells(events[events.len() - 1].0, session_id, message_id, part_id, "text"@, updates.last()));
        lemma_user_step(events.last().0, s1, events.last().1, session_id, message_id, part_id, updates.last());
        let (after, messages) = translated(s, events);
        let more = outcome(events.last().0, s1, events.last().1).1;
        if more.len() == 0 {
            assert(messages =~= translated(s, init).1);
        } else {
            assert(messages.last() == more[0]);
        }
    }
}

/// A whole text that goes on from what the user message has so far is shown as it is: nothing of it
/// is doubled, and nothing is sent where it adds nothing.
pub proof fn law_whole_user_text_is_shown_as_it_is(
    event: JsonView,
    s: StateView,
    diffs: DiffsView,
    session_id: Seq<char>,
    message_id: Seq<char>,
    part_id: Seq<char>,
    have: Seq<char>,
    rest: Seq<char>,
)
    requires
        session_id.len() > 0,
        tells(event, session_id, message_id, part_id, "text"@, TextUpdate::Whole(have + rest)),
        is_by_user(s, message_id),
        s.turn(session_id).user_message_text == have,
    ensures
        ({
            let (after, messages) = event_translator::sse_event(event, s, diffs);
            &&& after.turn(session_id).user_message_text == have + rest
            &&& messages.len() == (if rest.len() > 0 {
                1nat
            } else {
                0nat
            })
            &&& rest.len() > 0 ==> shown_text(messages[0]) == reading::found(have + rest)
        }),
{
    assert(have.is_prefix_of(have + rest));
    lemma_user_step(event, s, diffs, session_id, message_id, part_id, TextUpdate::Whole(have + rest));
    reveal(outcome);
    assert(rest.len() == 0 ==> have + rest =~= have);
    assert(rest.len() > 0 ==> (have + rest).len() != have.len());
}

// ---------------------------------------------------------------------------
// Texts of the agent
// ---------------------------------------------------------------------------

/// Whether a message adds a text to an item of a session's turn.
pub open spec fn adds_text(
    m: JsonView,
    method: Seq<char>,
    session_id: Seq<char>,
    turn_id: Seq<char>,
    item_id: Option<Seq<char>>,
    more: Seq<char>,
) -> bool {
    &&& reading::has_method(m, method)
    &&& reading::param(m, "threadId"@) == reading::found(session_id)
    &&& reading::param(m, "turnId"@) == reading::found(turn_id)
    &&& item_id is Some && reading::param(m, "itemId"@) == reading::found(item_id->0)
    &&& reading::param(m, "delta"@) == reading::found(more)
}

/// Whether a text has been sent of a text part: of one that is not current, nothing.
pub open spec fn has_sent(turn: TurnView, part_id: Seq<char>, have: Seq<char>) -> bool {
    if turn.agent_message_part_id == Some(part_id) {
        turn.agent_message_text_len == text::byte_len_of(have)
    } else {
        have.len() == 0
    }
}

/// Whether a text has been sent of a reasoning part: of one that is not current, nothing.
pub open spec fn has_reasoned(turn: TurnView, part_id: Seq<char>, have: Seq<char>) -> bool {
    if turn.reasoning_part_id == Some(part_id) {
        turn.reasoning_text_len == text::byte_len_of(have)
    } else {
        have.len() == 0
    }
}

proof fn lemma_text_step(
    event: JsonView,
    s: StateView,
    diffs: DiffsView,
    session_id: Seq<char>,
    message_id: Seq<char>,
    part_id: Seq<char>,
    update: TextUpdate,
    have: Seq<char>,
)
    requires
        session_id.len() > 0,
        part_id.len() > 0,
        tells(event, session_id, message_id, part_id, "text"@, update),
        !is_by_user(s, message_id),
        has_sent(s.turn(session_id), part_id, have),
        s.turn(session_id).reasoning_part_id != Some(part_id),
        follows(have, update),
    ensures
        ({
            let (after, messages) = outcome(event, s, diffs);
            let whole = grown(have, update);
            let before = s.turn(session_id);
            let turn = after.turn(session_id);
            &&& has_sent(turn, part_id, whole)
            &&& turn.agent_message_part_id == Some(part_id)
            &&& turn.reasoning_part_id == before.reasoning_part_id
            &&& turn.turn_id == before.turn_id
            &&& !is_by_user(after, message_id)
            &&& before.agent_message_item_id is Some ==> turn.agent_message_item_id == before.agent_message_item_id
            &&& have + whole.skip(have.len() as int) == whole
            &&& whole.skip(have.len() as int).len() == 0 ==> messages.len() == 0
            &&& whole.skip(have.len() as int).len() > 0 ==> messages.len() == 1 && adds_text(
                messages[0],
                "item/agentMessage/delta"@,
                session_id,
                before.turn_id,
                turn.agent_message_item_id,
                whole.skip(have.len() as int),
            )
        }),
{
    reveal(outcome);
    lemma_part_names();
    event_laws::lemma_delta_messages_read();
    text_stream_laws::lemma_byte_len_zero(have);
    let whole = grown(have, update);
    assert(""@ =~= Seq::<char>::empty());
    let s1 = event_translator::text_part_entered(s.with_session(session_id), session_id, Some(part_id));
    match update {
        TextUpdate::Appended { full_text, delta } => {
            text::lemma_byte_len_concat(have, delta);
            assert(whole.skip(have.len() as int) =~= delta);
        },
        TextUpdate::Streamed(delta) => {
            text::lemma_byte_len_concat(have, delta);
            assert(whole.skip(have.len() as int) =~= delta);
        },
        TextUpdate::Whole(t) => {
            let rest = t.skip(have.len() as int);
            assert(have + rest =~= t);
            text_stream_laws::lemma_unseen_rest(have, rest);
            assert(rest.len() == 0 ==> t =~= have);
        },
    }
    assert(whole.len() == have.len() ==> whole =~= have);
}

/// The text of a part of the agent is sent once, and all of it, from its first update to its last,
/// however its deltas and whole texts follow each other, and all of it into one item of the turn.
pub proof fn law_agent_text_is_sent_once(
    s: StateView,
    events: Seq<(JsonView, DiffsView)>,
    session_id: Seq<char>,
    message_id: Seq<char>,
    part_id: Seq<char>,
    updates: Seq<TextUpdate>,
    have: Seq<char>,
)
    requires
        session_id.len() > 0,
        part_id.len() > 0,
        all_tell(events, session_id, message_id, part_id, "text"@, updates),
        !is_by_user(s, message_id),
        has_sent(s.turn(session_id), part_id, have),
        s.turn(session_id).reasoning_part_id != Some(part_id),
        text_stream_laws::goes_on(have, updates),
    ensures
        ({
            let (after, messages) = translated(s, events);
            let whole = text_stream_laws::text_after(have, updates);
            let before = s.turn(session_id);
            let turn = after.turn(session_id);
            &&& have + text_stream_laws::sent_by(messages) == whole
            &&& has_sent(turn, part_id, whole)
            &&& turn.reasoning_part_id == before.reasoning_part_id
            &&& turn.turn_id == before.turn_id
            &&& !is_by_user(after, message_id)
            &&& messages.len() > 0 ==> turn.agent_message_item_id is Some
            &&& before.agent_message_item_id is Some ==> turn.agent_message_item_id == before.agent_message_item_id
            &&& forall|i: int|
                0 <= i < messages.len() ==> goes_into(
                    #[trigger] messages[i],
                    "item/agentMessage/delta"@,
                    session_id,
                    before.turn_id,
                    turn.agent_message_item_id,
                )
        }),
    decreases events.len(),
{
    if events.len() > 0 {
        let init = events.drop_last();
        let before = updates.drop_last();
        lemma_all_tell_init(events, session_id, message_id, part_id, "text"@, updates);
        law_agent_text_is_sent_once(s, init, session_id, message_id, part_id, before, have);
        let (s1, sent) = translated(s, init);
        let had = text_stream_laws::text_after(have, before);
        lemma_text_step(
            events.last().0,
            s1,
            events.last().1,
            session_id,
            message_id,
            part_id,
            updates.last(),
            had,
        );
        let more = outcome(events.last().0, s1, events.last().1).1;
        lemma_sent_more(sent, more, grown(had, updates.last()).skip(had.len() as int));
        assert(had + grown(had, updates.last()).skip(had.len() as int) =~= grown(had, updates.last()));
        assert(have + (text_stream_laws::sent_by(sent) + grown(had, updates.last()).skip(had.len() as int)) =~= (
        have + text_stream_laws::sent_by(sent)) + grown(had, updates.last()).skip(had.len() as int));
    } else {
        assert(have + text_stream_laws::sent_by(Seq::<JsonView>::empty()) =~= have);
    }
}

/// Whether a message adds some text to an item of a session's turn.
pub open spec fn goes_into(
    m: JsonView,
    method: Seq<char>,
    session_id: Seq<char>,
    turn_id: Seq<char>,
    item_id: Option<Seq<char>>,
) -> bool {
    &&& reading::has_method(m, method)
    &&& reading::param(m, "threadId"@) == reading::found(session_id)
    &&& reading::param(m, "turnId"@) == reading::found(turn_id)
    &&& item_id is Some && reading::param(m, "itemId"@) == reading::found(item_id->0)
}

proof fn lemma_all_tell_init(
    events: Seq<(JsonView, DiffsView)>,
    session_id: Seq<char>,
    message_id: Seq<char>,
    part_id: Seq<char>,
    kind: Seq<char>,
    updates: Seq<TextUpdate>,
)
    requires
        events.len() > 0,
        all_tell(events, session_id, message_id, part_id, kind, updates),
    ensures
        all_tell(events.drop_last(), session_id, message_id, part_id, kind, updates.drop_last()),
        tells(events.last().0, session_id, message_id, part_id, kind, updates.last()),
{
    let init = events.drop_last();
    let before = updates.drop_last();
    assert forall|i: int| 0 <= i < init.len() implies tells(
        (#[trigger] init[i]).0,
        session_id,
        message_id,
        part_id,
        kind,
        before[i],
    ) by {
        assert(init[i] == events[i]);
    }
    assert(tells(events[events.len() - 1].0, session_id, message_id, part_id, kind, updates.last()));
}

proof fn lemma_sent_more(sent: Seq<JsonView>, more: Seq<JsonView>, rest: Seq<char>)
    requires
        rest.len() == 0 ==> more.len() == 0,
        rest.len() > 0 ==> more.len() == 1 && reading::param(more[0], "delta"@) == reading::found(rest),
    ensures
        text_stream_laws::sent_by(sent + more) == text_stream_laws::sent_by(sent) + rest,
{
    if rest.len() == 0 {
        assert(sent + more =~= sent);
        assert(text_stream_laws::sent_by(sent) + rest =~= text_stream_laws::sent_by(sent));
    } else {
        assert((sent + more).drop_last() =~= sent);
        assert((sent + more).last() == more[0]);
    }
}

proof fn lemma_reasoning_step(
    event: JsonView,
    s: StateView,
    diffs: DiffsView,
    session_id: Seq<char>,
    message_id: Seq<char>,
    part_id: Seq<char>,
    update: TextUpdate,
    have: Seq<char>,
)
    requires
        session_id.len() > 0,
        tells(event, session_id, message_id, part_id, "reasoning"@, update),
        !is_by_user(s, message_id),
        has_reasoned(s.turn(session_id), part_id, have),
        s.turn(session_id).reasoning_part_id == Some(part_id) || update !is Streamed,
        follows(have, update),
    ensures
        ({
            let (after, messages) = outcome(event, s, diffs);
            let whole = grown(have, update);
            let before = s.turn(session_id);
            let turn = after.turn(session_id);
            &&& has_reasoned(turn, part_id, whole)
            &&& turn.reasoning_part_id == Some(part_id)
            &&& turn.turn_id == before.turn_id
            &&& !is_by_user(after, message_id)
            &&& before.reasoning_item_id is Some ==> turn.reasoning_item_id == before.reasoning_item_id
            &&& have + whole.skip(have.len() as int) == whole
            &&& whole.skip(have.len() as int).len() == 0 ==> messages.len() == 0
            &&& whole.skip(have.len() as int).len() > 0 ==> messages.len() == 1 && adds_text(
                messages[0],
                "item/reasoning/textDelta"@,
                session_id,
                before.turn_id,
                turn.reasoning_item_id,
                whole.skip(have.len() as int),
            )
        }),
{
    reveal(outcome);
    lemma_part_names();
    event_laws::lemma_delta_messages_read();
    text_stream_laws::lemma_byte_len_zero(have);
    let whole = grown(have, update);
    assert(""@ =~= Seq::<char>::empty());
    match update {
        TextUpdate::Appended { full_text, delta } => {
            text::lemma_byte_len_concat(have, delta);
            assert(whole.skip(have.len() as int) =~= delta);
        },
        TextUpdate::Streamed(delta) => {
            text::lemma_byte_len_concat(have, delta);
            assert(whole.skip(have.len() as int) =~= delta);
        },
        TextUpdate::Whole(t) => {
            let rest = t.skip(have.len() as int);
            assert(have + rest =~= t);
            text_stream_laws::lemma_unseen_rest(have, rest);
            assert(rest.len() == 0 ==> t =~= have);
        },
    }
    assert(whole.len() == have.len() ==> whole =~= have);
}

/// The text of a reasoning part is sent once, and all of it, into one item of reasoning, where its
/// first update is not a delta that comes alone or the part is current already.
pub proof fn law_reasoning_text_is_sent_once(
    s: StateView,
    events: Seq<(JsonView, DiffsView)>,
    session_id: Seq<char>,
    message_id: Seq<char>,
    part_id: Seq<char>,
    updates: Seq<TextUpdate>,
    have: Seq<char>,
)
    requires
        session_id.len() > 0,
        all_tell(events, session_id, message_id, part_id, "reasoning"@, updates),
        !is_by_user(s, message_id),
        has_reasoned(s.turn(session_id), part_id, have),
        s.turn(session_id).reasoning_part_id == Some(part_id) || (updates.len() > 0 ==> updates[0] !is Streamed),
        text_stream_laws::goes_on(have, updates),
    ensures
        ({
            let (after, messages) = translated(s, events);
            let whole = text_stream_laws::text_after(have, updates);
            let before = s.turn(session_id);
            let turn = after.turn(session_id);
            &&& have + text_stream_laws::sent_by(messages) == whole
            &&& has_reasoned(turn, part_id, whole)
            &&& updates.len() > 0 ==> turn.reasoning_part_id == Some(part_id)
            &&& updates.len() == 0 ==> after == s
            &&& turn.turn_id == before.turn_id
            &&& !is_by_user(after, message_id)
            &&& messages.len() > 0 ==> turn.reasoning_item_id is Some
            &&& before.reasoning_item_id is Some ==> turn.reasoning_item_id == before.reasoning_item_id
            &&& forall|i: int|
                0 <= i < messages.len() ==> goes_into(
                    #[trigger] messages[i],
                    "item/reasoning/textDelta"@,
                    session_id,
                    before.turn_id,
                    turn.reasoning_item_id,
                )
        }),
    decreases events.len(),
{
    if events.len() > 0 {
        let init = events.drop_last();
        let before = updates.drop_last();
        lemma_all_tell_init(events, session_id, message_id, part_id, "reasoning"@, updates);
        if before.len() > 0 {
            assert(before[0] == updates[0]);
        } else {
            assert(updates.last() == updates[0]);
        }
        law_reasoning_text_is_sent_once(s, init, session_id, message_id, part_id, before, have);
        let (s1, sent) = translated(s, init);
        let had = text_stream_laws::text_after(have, before);
        lemma_reasoning_step(
            events.last().0,
            s1,
            events.last().1,
            session_id,
            message_id,
            part_id,
            updates.last(),
            had,
        );
        let more = outcome(events.last().0, s1, events.last().1).1;
        let rest = grown(had, updates.last()).skip(had.len() as int);
        lemma_sent_more(sent, more, rest);
        assert(had + rest =~= grown(had, updates.last()));
        assert(have + (text_stream_laws::sent_by(sent) + rest) =~= (have + text_stream_laws::sent_by(sent)) + rest);
    } else {
        assert(have + text_stream_laws::sent_by(Seq::<JsonView>::empty()) =~= have);
    }
}

/// Deltas of other fields than the text, and empty ones, are not shown.
pub proof fn law_deltas_of_other_fields_are_not_shown(event: JsonView, s: StateView, diffs: DiffsView, p: JsonView)
    requires
        event_laws::is_event(event, "message.part.delta"@, p),
        reading::string_at(p, "delta"@).len() == 0 || (p.get("field"@) matches Some(JsonView::Text(f)) && f != "text"@),
    ensures
        event_translator::sse_event(event, s, diffs).1.len() == 0,
        event_translator::sse_event(event, s, diffs).0.session_turns == s.session_turns,
{
    lemma_part_names();
}

/// Reasoning in a message of the user is not shown.
pub proof fn law_reasoning_of_the_user_is_not_shown(
    event: JsonView,
    s: StateView,
    diffs: DiffsView,
    p: JsonView,
    part: JsonView,
)
    requires
        event_laws::is_event(event, "message.part.updated"@, p),
        p.get("part"@) == Some(part),
        part.get("type"@) == reading::found("reasoning"@),
        part.get("messageID"@) matches Some(JsonView::Text(id)) && is_by_user(s, id),
    ensures
        event_translator::sse_event(event, s, diffs).1.len() == 0,
        event_translator::sse_event(event, s, diffs).0.session_turns == s.session_turns,
{
    lemma_part_names();
}

proof fn lemma_summary_names()
    ensures
        ""@.len() == 0,
        "delta"@.len() == 5,
        "description"@.len() == 11,
        "itemId"@.len() == 6,
        "itemId"@[0] == 'i',
        "method"@.len() == 6,
        "method"@[0] == 'm',
        "name"@.len() == 4,
        "params"@.len() == 6,
        "params"@[0] == 'p',
        "params"@[1] == 'a',
        "prompt"@.len() == 6,
        "prompt"@[0] == 'p',
        "prompt"@[1] == 'r',
        "threadId"@.len() == 8,
        "turnId"@.len() == 6,
        "turnId"@[0] == 't',
{
    reveal_strlit("");
    reveal_strlit("delta");
    reveal_strlit("description");
    reveal_strlit("itemId");
    reveal_strlit("method");
    reveal_strlit("name");
    reveal_strlit("params");
    reveal_strlit("prompt");
    reveal_strlit("threadId");
    reveal_strlit("turnId");
}

/// A subtask, and an agent that is called, are shown as a summary of the reasoning: a new summary
/// part, and its text, which is the description of the subtask or else its prompt, or the name of
/// the agent.
pub proof fn law_subtasks_and_agents_are_summaries(
    event: JsonView,
    s: StateView,
    diffs: DiffsView,
    p: JsonView,
    part: JsonView,
    label: Seq<char>,
)
    requires
        event_laws::is_event(event, "message.part.updated"@, p),
        p.get("part"@) == Some(part),
        ({
            ||| part.get("type"@) == reading::found("agent"@) && part.get("name"@) == reading::found(label)
            ||| part.get("type"@) == reading::found("subtask"@) && part.get("description"@) == reading::found(label)
                && text::trim_of(label).len() > 0
            ||| part.get("type"@) == reading::found("subtask"@) && part.get("description"@) is None && part.get(
                "prompt"@,
            ) == reading::found(label)
        }),
    ensures
        ({
            let (after, messages) = event_translator::sse_event(event, s, diffs);
            let session = after.session_id;
            let shown = text::trim_of(label);
            &&& shown.len() == 0 ==> messages.len() == 0
            &&& shown.len() > 0 ==> {
                &&& messages.len() == 2
                &&& goes_into(
                    messages[0],
                    "item/reasoning/summaryPartAdded"@,
                    session,
                    s.turn(session).turn_id,
                    after.turn(session).reasoning_item_id,
                )
                &&& adds_text(
                    messages[1],
                    "item/reasoning/summaryTextDelta"@,
                    session,
                    s.turn(session).turn_id,
                    after.turn(session).reasoning_item_id,
                    shown,
                )
            }
        }),
{
    lemma_part_names();
    broadcast use reading::group_reading;
    lemma_summary_names();
    event_laws::lemma_delta_messages_read();
    assert(""@ =~= Seq::<char>::empty());
    assert(text::trim_of(Seq::<char>::empty()).len() == 0);
}

/// A part that is removed is forgotten in its session, under the name that it had.
pub proof fn law_removed_part_starts_anew(
    event: JsonView,
    s: StateView,
    diffs: DiffsView,
    p: JsonView,
    part_id: Seq<char>,
)
    requires
        event_laws::is_event(event, "message.part.removed"@, p),
        p.get("partID"@) == reading::found(part_id),
        part_id.len() > 0,
    ensures
        ({
            let (after, messages) = event_translator::sse_event(event, s, diffs);
            let session = event_laws::named_session(p.get("sessionID"@), s.session_id);
            let before = s.turn(session);
            let turn = after.turn(session);
            &&& messages.len() == 0
            &&& after.session_id == session
            &&& turn.agent_message_part_id != Some(part_id)
            &&& turn.reasoning_part_id != Some(part_id)
            &&& !turn.tool_call_items.contains_key(part_id)
            &&& before.agent_message_part_id != Some(part_id) ==> turn.agent_message_part_id
                == before.agent_message_part_id && turn.agent_message_item_id == before.agent_message_item_id
            &&& before.reasoning_part_id != Some(part_id) ==> turn.reasoning_part_id == before.reasoning_part_id
                && turn.reasoning_item_id == before.reasoning_item_id
            &&& turn.user_message_text == before.user_message_text
            &&& turn.user_message_item_id == before.user_message_item_id
            &&& turn.turn_id == before.turn_id
        }),
{
    lemma_part_names();
}

} // verus!
