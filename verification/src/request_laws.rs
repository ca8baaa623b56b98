//! What requests to the server say, and how requests of the user are answered.

use vstd::prelude::*;

use crate::event_translator;
use crate::json::{JsonView, NumberView};
use crate::prompt_parts;
use crate::reading;
use crate::replay;
use crate::replay_laws;
use crate::sort;
use crate::text;
use crate::text_laws;
use crate::threads;

verus! {

proof fn lemma_request_names()
    ensures
        ""@.len() == 0,
        "accept"@.len() == 6,
        "accept"@[0] == 'a',
        "accept"@[1] == 'c',
        "always"@.len() == 6,
        "always"@[0] == 'a',
        "always"@[1] == 'l',
        "archived"@.len() == 8,
        "archived"@[0] == 'a',
        "arguments"@.len() == 9,
        "arguments"@[0] == 'a',
        "command"@.len() == 7,
        "id"@.len() == 2,
        "info"@.len() == 4,
        "info"@[0] == 'i',
        "messageID"@.len() == 9,
        "messageID"@[0] == 'm',
        "method"@.len() == 6,
        "method"@[0] == 'm',
        "once"@.len() == 4,
        "once"@[0] == 'o',
        "params"@.len() == 6,
        "params"@[0] == 'p',
        "reject"@.len() == 6,
        "reject"@[0] == 'r',
        "reject"@[2] == 'j',
        "reply"@.len() == 5,
        "reply"@[0] == 'r',
        "result"@.len() == 6,
        "result"@[0] == 'r',
        "result"@[2] == 's',
        "review"@.len() == 6,
        "review"@[0] == 'r',
        "review"@[2] == 'v',
        "reviewThreadId"@.len() == 14,
        "reviewThreadId"@[0] == 'r',
        "skills"@.len() == 6,
        "skills"@[0] == 's',
        "thread"@.len() == 6,
        "thread"@[0] == 't',
        "thread"@[1] == 'h',
        "threadId"@.len() == 8,
        "threadId"@[0] == 't',
        "time"@.len() == 4,
        "time"@[0] == 't',
        "time"@[1] == 'i',
        "title"@.len() == 5,
        "title"@[0] == 't',
        "turn"@.len() == 4,
        "turn"@[0] == 't',
        "turn"@[1] == 'u',
        "turn/completed"@.len() == 14,
        "turn/completed"@[0] == 't',
        "turn/started"@.len() == 12,
        "turnId"@.len() == 6,
        "turnId"@[0] == 't',
        "turnId"@[1] == 'u',
{
    reveal_strlit("");
    reveal_strlit("accept");
    reveal_strlit("always");
    reveal_strlit("archived");
    reveal_strlit("arguments");
    reveal_strlit("command");
    reveal_strlit("id");
    reveal_strlit("info");
    reveal_strlit("messageID");
    reveal_strlit("method");
    reveal_strlit("once");
    reveal_strlit("params");
    reveal_strlit("reject");
    reveal_strlit("reply");
    reveal_strlit("result");
    reveal_strlit("review");
    reveal_strlit("reviewThreadId");
    reveal_strlit("skills");
    reveal_strlit("thread");
    reveal_strlit("threadId");
    reveal_strlit("time");
    reveal_strlit("title");
    reveal_strlit("turn");
    reveal_strlit("turn/completed");
    reveal_strlit("turn/started");
    reveal_strlit("turnId");
}

// ---------------------------------------------------------------------------
// Answers
// ---------------------------------------------------------------------------

/// What an answer holds under a name.
pub open spec fn answered(response: JsonView, name: Seq<char>) -> Option<JsonView> {
    reading::within(response.get("result"@), name)
}

/// The answer to the start of a session shows the identifier that the server gave it.
pub proof fn law_started_session_is_answered(response: JsonView)
    ensures
        reading::within(answered(threads::started_response(response), "thread"@), "id"@) == reading::found(
            reading::string_at(response, "id"@),
        ),
{
    broadcast use reading::group_reading;
    lemma_request_names();
    assert(""@ =~= Seq::<char>::empty());
}

/// The answer to a fork shows the session that was made, with all that its thread shows, or at least
/// its identifier.
pub proof fn law_forked_session_is_answered(response: JsonView)
    ensures
        ({
            let shown = answered(threads::fork_response(response), "thread"@);
            &&& reading::within(shown, "id"@) == reading::found(reading::string_at(response, "id"@))
            &&& threads::thread_entry(response) is Some ==> shown == threads::thread_entry(response)
        }),
{
    broadcast use reading::group_reading;
    lemma_request_names();
    assert(""@ =~= Seq::<char>::empty());
    crate::thread_laws::law_thread_shows_its_session(response);
}

/// The answer to a request for the skills holds those that the server lists; none where it gives no
/// list.
pub proof fn law_skills_are_answered(response: JsonView)
    ensures
        answered(threads::skill_list(response), "skills"@) == Some(
            JsonView::Array(
                match response {
                    JsonView::Array(skills) => threads::skill_entries(skills),
                    _ => Seq::empty(),
                },
            ),
        ),
{
    broadcast use reading::group_reading;
    lemma_request_names();
    if let JsonView::Array(skills) = response {
    } else {
        assert(threads::skill_entries(Seq::empty()) =~= Seq::<JsonView>::empty());
    }
}

/// The answer to a prompt shows the turn that it started, and that to a review the thread in which it
/// runs.
pub proof fn law_turn_and_review_are_answered(id: Seq<char>)
    ensures
        reading::within(answered(prompt_parts::turn_response(id), "turn"@), "id"@) == reading::found(id),
        answered(threads::review_response(id), "reviewThreadId"@) == reading::found(id),
{
    broadcast use reading::group_reading;
    lemma_request_names();
}

// ---------------------------------------------------------------------------
// Requests
// ---------------------------------------------------------------------------

/// A thread is archived with the time at which it was, named with the name that the user gave it, and
/// reverted to the message that is told.
pub proof fn law_changes_of_a_thread_are_told(now_ms: u64, name: Seq<char>, message_id: Seq<char>)
    ensures
        reading::within(threads::archive_body(now_ms).get("time"@), "archived"@) == Some(
            JsonView::Number(NumberView::Unsigned(now_ms)),
        ),
        threads::thread_name_body(name).get("title"@) == reading::found(text::trim_of(name)),
        threads::revert_body(message_id).get("messageID"@) == reading::found(message_id),
{
    broadcast use reading::group_reading;
    lemma_request_names();
}

/// The time is told in milliseconds as long as 64 bits hold them, and is zero before the epoch.
pub proof fn law_time_is_told_in_milliseconds(ms: u128)
    ensures
        ms <= u64::MAX ==> threads::unix_ms(Some(ms)) == ms,
        0 <= threads::unix_ms(Some(ms)) <= u64::MAX,
        (ms - threads::unix_ms(Some(ms))) % 0x1_0000_0000_0000_0000 == 0,
        threads::unix_ms(None) == 0,
{
}

/// A thread is compacted with the model that is named, and refused where none is.
pub proof fn law_compaction_needs_a_model(model: Seq<char>)
    ensures
        !reading::is_blank(model) ==> threads::model_to_compact_with(Some(model)) == Ok::<Seq<char>, Seq<char>>(
            text::trim_of(model),
        ),
        reading::is_blank(model) ==> threads::model_to_compact_with(Some(model)) is Err,
        threads::model_to_compact_with(None) is Err,
        threads::model_to_compact_with(None) == Err::<Seq<char>, Seq<char>>(
            "No model selected for context compaction. Select a model (or connect a provider) and try again."@,
        ),
{
    text_laws::law_trimming_leaves_the_rest(model);
}

/// A command is run by its name, with its arguments without the white space around them; one without
/// a name is refused.
pub proof fn law_command_is_run_with_its_arguments(command: Seq<char>, arguments: Option<Seq<char>>)
    ensures
        match threads::slash_command_body(command, arguments) {
            Ok(body) => {
                &&& threads::command_name(command).len() > 0
                &&& body.get("command"@) == reading::found(threads::command_name(command))
                &&& arguments matches Some(a) ==> body.get("arguments"@) == reading::found(text::trim_of(a))
                &&& arguments is None ==> body.get("arguments"@) == reading::found(Seq::empty())
            },
            Err(e) => threads::command_name(command).len() == 0 && e == "empty slash command"@,
        },
{
    broadcast use reading::group_reading;
    lemma_request_names();
    assert(""@ =~= Seq::<char>::empty());
    assert(text::trim_of(Seq::<char>::empty()) =~= Seq::<char>::empty());
}

/// A review is run by the command of that name, with its arguments.
pub proof fn law_review_is_run_with_its_arguments(arguments: Seq<char>)
    ensures
        threads::review_body(arguments).get("command"@) == reading::found("review"@),
        threads::review_body(arguments).get("arguments"@) == reading::found(arguments),
{
    broadcast use reading::group_reading;
    lemma_request_names();
}

/// A review has a thread of its own where it is asked for as `detached`, in whatever letters.
pub proof fn law_detached_reviews_are_asked_for(delivery: Seq<char>)
    ensures
        threads::is_detached(Some(delivery)) <==> text::ascii_lowered(text::trim_of(delivery)) == "detached"@,
        !threads::is_detached(None),
{
    reveal_strlit("detached");
    assert(text::ascii_lowered("detached"@) =~= "detached"@);
}

/// A review runs in the thread that was made for it, which must have an identifier; where none was
/// made, in the thread that it is about.
pub proof fn law_review_runs_in_its_thread(forked: JsonView, thread_id: Seq<char>)
    ensures
        threads::thread_of_review(None, thread_id) == Ok::<Seq<char>, Seq<char>>(thread_id),
        ({
            let id = reading::string_at(forked, "id"@);
            &&& id.len() > 0 ==> threads::thread_of_review(Some(forked), thread_id) == Ok::<Seq<char>, Seq<char>>(id)
                && threads::thread_made_for_review(forked) == Ok::<Seq<char>, Seq<char>>(id)
            &&& id.len() == 0 ==> threads::thread_of_review(Some(forked), thread_id) == Err::<Seq<char>, Seq<char>>(
                "failed to fork review thread"@,
            ) && threads::thread_made_for_review(forked) is Err
        }),
{
    lemma_request_names();
}

// ---------------------------------------------------------------------------
// Undoing
// ---------------------------------------------------------------------------

/// What a message tells of its time is found under the first of these names that is there: in the
/// message itself when it was made or changed, and then under its times.
pub proof fn law_time_of_a_message_is_found(message: JsonView)
    ensures
        ({
            let time = message.get("time"@);
            replay::timestamp_of(message) == reading::first(
                message.get("createdAt"@),
                reading::first(
                    message.get("created_at"@),
                    reading::first(
                        message.get("updatedAt"@),
                        reading::first(
                            message.get("updated_at"@),
                            reading::first(
                                reading::within(time, "created"@),
                                reading::first(
                                    reading::within(time, "createdAt"@),
                                    reading::first(
                                        reading::within(time, "created_at"@),
                                        reading::first(
                                            reading::within(time, "updated"@),
                                            reading::first(
                                                reading::within(time, "updatedAt"@),
                                                reading::within(time, "updated_at"@),
                                            ),
                                        ),
                                    ),
                                ),
                            ),
                        ),
                    ),
                ),
            )
        }),
{
}

/// The time of a message counts as the text that it is, without white space around it, where it is no
/// number; where it is neither, or blank, the message tells no time.
pub proof fn law_time_in_words_counts_as_it_is(s: Seq<char>)
    ensures
        !reading::is_blank(s) ==> replay::order_key_of(JsonView::Text(s)) == Some(text::trim_of(s)),
        reading::is_blank(s) ==> replay::order_key_of(JsonView::Text(s)) is None,
        replay::order_key_of(JsonView::Null) is None,
        replay::order_key_of(JsonView::Bool(true)) is None,
        replay::order_key_of(JsonView::Bool(false)) is None,
{
    text_laws::law_trimming_leaves_the_rest(s);
}

/// The identifier that a message has with its parts.
pub open spec fn told_id(entry: JsonView) -> Seq<char> {
    match reading::within(entry.get("info"@), "id"@) {
        Some(JsonView::Text(s)) => text::trim_of(s),
        _ => Seq::empty(),
    }
}

/// Of messages that tell no times, the last one with an identifier is undone; where none has one, or
/// where they are no list, nothing can be.
pub proof fn law_last_message_is_undone(entries: Seq<JsonView>, entry: JsonView)
    requires
        forall|k: int|
            0 <= k < entries.len() ==> replay::message_order_key(replay::info_or_self(#[trigger] entries[k])) is None,
        replay::message_order_key(replay::info_or_self(entry)) is None,
    ensures
        ({
            let all = JsonView::Array(entries.push(entry));
            &&& told_id(entry).len() > 0 ==> replay::message_to_undo(all) == Ok::<Seq<char>, Seq<char>>(told_id(entry))
            &&& told_id(entry).len() == 0 ==> replay::message_to_undo(all) == replay::message_to_undo(
                JsonView::Array(entries),
            )
        }),
        replay::message_to_undo(JsonView::Array(Seq::empty())) == Err::<Seq<char>, Seq<char>>(
            "No messages available to undo in this thread."@,
        ),
        replay::message_to_undo(entry) is Ok ==> entry is Array,
        !(entry is Array) ==> replay::message_to_undo(entry) == Err::<Seq<char>, Seq<char>>(
            "Invalid message list returned for undo."@,
        ),
{
    let all = entries.push(entry);
    lemma_undone_as_they_come(entries);
    assert forall|k: int| 0 <= k < all.len() implies replay::message_order_key(
        replay::info_or_self(#[trigger] all[k]),
    ) is None by {
        if k < entries.len() {
            assert(all[k] == entries[k]);
        }
    }
    lemma_undone_as_they_come(all);
    lemma_undone_as_they_come(Seq::empty());
    assert(all.drop_last() =~= entries);
    assert(all.last() == entry);
    assert(text::trim_of(Seq::<char>::empty()).len() == 0);
}

proof fn lemma_undone_as_they_come(entries: Seq<JsonView>)
    requires
        forall|k: int|
            0 <= k < entries.len() ==> replay::message_order_key(replay::info_or_self(#[trigger] entries[k])) is None,
    ensures
        replay::last_revertable(entries) == replay::last_id(entries),
{
    let keys = replay::wrapped_order_keys(entries);
    replay_laws::lemma_untouched_order(entries.len(), keys);
    let order = sort::sorted_order(entries.len(), sort::text_less(keys));
    assert(sort::reordered(entries, order) =~= entries);
}

// ---------------------------------------------------------------------------
// Replaying
// ---------------------------------------------------------------------------

/// The input of a tool is found in the state of the part that an update tells; other events tell
/// none.
pub proof fn law_input_of_a_tool_is_found(event: JsonView)
    ensures
        ({
            let part = reading::within(event.get("properties"@), "part"@);
            &&& event.get("type"@) == reading::found("message.part.updated"@) ==> event_translator::tool_input_of(event)
                == reading::within(reading::within(part, "state"@), "input"@)
            &&& event.get("type"@) != reading::found("message.part.updated"@) ==> event_translator::tool_input_of(
                event,
            ) is None
        }),
{
}

/// The inputs of tool calls are told call by call, in their order; a call whose state holds no input
/// has none.
pub proof fn law_inputs_of_calls_are_told_in_order(a: Seq<JsonView>, b: Seq<JsonView>, part: JsonView)
    ensures
        replay::tool_inputs(a + b) == replay::tool_inputs(a) + replay::tool_inputs(b),
        replay::tool_inputs(seq![part]) == seq![
            match part.get("state"@) {
                Some(state) => match state.get("input"@) {
                    Some(input) => input,
                    None => JsonView::Null,
                },
                None => JsonView::Null,
            },
        ],
{
    assert(replay::tool_inputs(a + b) =~= replay::tool_inputs(a) + replay::tool_inputs(b));
    let one = replay::tool_inputs(seq![part]);
    assert(one.len() == 1);
    assert(one =~= seq![one[0]]);
}

/// The inputs of the calls of messages are told message by message, in their order.
pub proof fn law_inputs_are_told_message_by_message(a: Seq<JsonView>, b: Seq<JsonView>)
    ensures
        replay::all_tool_inputs(a + b) == replay::all_tool_inputs(a) + replay::all_tool_inputs(b),
        replay::all_tool_inputs(Seq::empty()).len() == 0,
    decreases b.len(),
{
    if b.len() == 0 {
        assert(a + b =~= a);
        assert(replay::all_tool_inputs(a) + replay::all_tool_inputs(b) =~= replay::all_tool_inputs(a));
    } else {
        let init = b.drop_last();
        law_inputs_are_told_message_by_message(a, init);
        assert((a + b).drop_last() =~= a + init);
        assert((a + b).last() == b.last());
        assert(replay::all_tool_inputs(a + b) =~= replay::all_tool_inputs(a) + replay::all_tool_inputs(b));
    }
}

/// The messages of a replay are those of the list in the order of their times, without what is taken
/// back; what is no list has none.
pub proof fn law_replay_takes_the_messages_in_order(messages: Seq<JsonView>, other: JsonView, details: Option<JsonView>)
    ensures
        replay::replay_order(JsonView::Array(messages), details) == replay::after_revert(
            replay::chronological(messages),
            details,
        ),
        !(other is Array) ==> replay::replay_order(other, None).len() == 0,
{
    if !(other is Array) {
        assert(replay::chronological(Seq::empty()) =~= Seq::<JsonView>::empty());
    }
}

// ---------------------------------------------------------------------------
// Turns and permissions
// ---------------------------------------------------------------------------

/// The turn of a prompt is known by its number.
pub proof fn law_turn_of_a_prompt_is_numbered(n: u64)
    ensures
        prompt_parts::user_turn_id(n) == "turn_"@ + text::decimal(n as nat),
{
}

/// A turn is told with its session and its own identifier.
pub proof fn law_turn_is_told_with_its_session(session_id: Seq<char>, turn_id: Seq<char>)
    ensures
        ({
            let m = event_translator::turn_started(session_id, turn_id);
            &&& reading::has_method(m, "turn/started"@)
            &&& reading::param(m, "threadId"@) == reading::found(session_id)
            &&& reading::within(reading::param(m, "turn"@), "id"@) == reading::found(turn_id)
        }),
        ({
            let m = event_translator::turn_completed(session_id, turn_id);
            &&& reading::has_method(m, "turn/completed"@)
            &&& reading::param(m, "threadId"@) == reading::found(session_id)
            &&& reading::within(reading::param(m, "turn"@), "id"@) == reading::found(turn_id)
        }),
{
    broadcast use reading::group_reading;
    lemma_request_names();
}

/// A permission is given once, always, or not.
pub proof fn law_permission_is_answered(decision: Seq<char>)
    ensures
        ({
            let reply = event_translator::permission_response(decision).get("reply"@);
            &&& decision == "accept"@ ==> reply == reading::found("once"@)
            &&& decision == "always"@ ==> reply == reading::found("always"@)
            &&& decision != "accept"@ && decision != "always"@ ==> reply == reading::found("reject"@)
        }),
{
    broadcast use reading::group_reading;
    lemma_request_names();
}

} // verus!
