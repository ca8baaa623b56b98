//! Replay of the past messages of a thread.

use vstd::prelude::*;
use vstd::string::*;

use crate::event_translator;
use crate::event_translator::{
    build_item_message, build_user_message_item, collect_strings, translate_message_updated,
};
use crate::json;
use crate::json::{as_array_in, as_str_in, either, get_in, none, one, push_json, Json, JsonView, NumberView};
use crate::images;
use crate::images::frontend_image_value;
use crate::prompt_parts;
use crate::prompt_parts::{build_image_content, build_text_part};
use crate::session_state::{SessionTranslationState, StateView};
use crate::sort;
use crate::sort::{order_by_texts, reorder};
use crate::str_map::StrMap;
use crate::text;
use crate::text::{
    cat, decimal_text, join, magnitude, owned, str_eq, str_or, trim, trim_some, zero_pad,
};
use crate::threads;
use crate::threads::filled;
use crate::tool_items;
use crate::tool_items::{clone_all, task_collab_agent_status_map, task_collab_prompt, DiffsView, FileDiffs};

verus! {

// ---------------------------------------------------------------------------
// The order of messages
// ---------------------------------------------------------------------------

/// When a message was written: the first of ten fields that is there.
pub open spec fn timestamp_of(message: JsonView) -> Option<JsonView> {
    let time = message.get("time"@);
    json::either_of(
        json::either_of(
            json::either_of(
                json::either_of(
                    json::either_of(
                        json::either_of(
                            json::either_of(
                                json::either_of(
                                    json::either_of(message.get("createdAt"@), message.get("created_at"@)),
                                    message.get("updatedAt"@),
                                ),
                                message.get("updated_at"@),
                            ),
                            json::get_of(time, "created"@),
                        ),
                        json::get_of(time, "createdAt"@),
                    ),
                    json::get_of(time, "created_at"@),
                ),
                json::get_of(time, "updated"@),
            ),
            json::get_of(time, "updatedAt"@),
        ),
        json::get_of(time, "updated_at"@),
    )
}

/// A point in time as a text to sort by: an integer with zeros in front, so that twenty characters
/// are filled, or a string.
pub open spec fn order_key_of(timestamp: JsonView) -> Option<Seq<char>> {
    match timestamp {
        JsonView::Number(NumberView::Unsigned(n)) => Some(text::zero_padded(text::decimal(n as nat), 20)),
        JsonView::Number(NumberView::Negative(n)) => Some(padded_integer(n)),
        other => text::trimmed_some(other.as_str()),
    }
}

/// An integer with zeros in front, behind its sign where it has one.
pub open spec fn padded_integer(n: i64) -> Seq<char> {
    if n < 0 {
        "-"@ + text::zero_padded(text::decimal((-n) as nat), 19)
    } else {
        text::zero_padded(text::decimal(n as nat), 20)
    }
}

/// The text by which a message is sorted.
pub open spec fn message_order_key(message: JsonView) -> Option<Seq<char>> {
    match timestamp_of(message) {
        Some(t) => order_key_of(t),
        None => None,
    }
}

/// The text by which a message is sorted; nothing where the message does not tell its time.
pub fn replay_message_order_key(message: &Json) -> (r: Option<String>)
    ensures
        text::opt_string(r) == message_order_key(message@),
{
    let time = message.get("time");
    let timestamp = either(
        either(
            either(
                either(
                    either(
                        either(
                            either(
                                either(
                                    either(message.get("createdAt"), message.get("created_at")),
                                    message.get("updatedAt"),
                                ),
                                message.get("updated_at"),
                            ),
                            get_in(time, "created"),
                        ),
                        get_in(time, "createdAt"),
                    ),
                    get_in(time, "created_at"),
                ),
                get_in(time, "updated"),
            ),
            get_in(time, "updatedAt"),
        ),
        get_in(time, "updated_at"),
    );
    match timestamp {
        Some(t) => match t.as_u64() {
            Some(n) => Some(zero_pad(decimal_text(n).as_str(), 20)),
            None => match t.as_i64() {
                Some(n) => {
                    let digits: String = decimal_text(magnitude(n));
                    if n < 0 {
                        Some(cat("-", zero_pad(digits.as_str(), 19).as_str()))
                    } else {
                        Some(zero_pad(digits.as_str(), 20))
                    }
                },
                None => owned(trim_some(t.as_str())),
            },
        },
        None => None,
    }
}

/// The keys of messages.
pub open spec fn order_keys(messages: Seq<JsonView>) -> Seq<Option<Seq<char>>> {
    Seq::new(messages.len(), |i: int| message_order_key(messages[i]))
}

/// The messages, the oldest one first. Messages of the same time stay in their order, and one that
/// does not tell its time stays behind the ones that stand in front of it.
pub open spec fn chronological(messages: Seq<JsonView>) -> Seq<JsonView> {
    sort::reordered(messages, sort::sorted_order(messages.len(), sort::text_less(order_keys(messages))))
}

/// Puts the messages in the order of their times, the oldest one first.
pub fn sort_replay_messages_chronologically(messages: &mut Vec<Json>)
    ensures
        json::json_views(final(messages)@) == chronological(json::json_views(old(messages)@)),
{
    let mut keys: Vec<Option<String>> = Vec::new();
    let mut i: usize = 0;
    let ghost all = json::json_views(messages@);
    while i < messages.len()
        invariant
            i <= messages@.len(),
            keys@.len() == i,
            all == json::json_views(messages@),
            messages@ == old(messages)@,
            forall|k: int| 0 <= k < i ==> text::opt_string(#[trigger] keys@[k]) == message_order_key(all[k]),
        decreases messages@.len() - i,
    {
        keys.push(replay_message_order_key(&messages[i]));
        i = i + 1;
    }
    assert(sort::opt_strings(keys@) =~= order_keys(all));
    let order: Vec<usize> = order_by_texts(&keys);
    let sorted: Vec<Json> = reorder(messages, &order);
    *messages = sorted;
}

/// What a message says of itself.
pub open spec fn info_or_self(entry: JsonView) -> JsonView {
    match entry.get("info"@) {
        Some(info) => info,
        None => entry,
    }
}

/// The keys of messages that are wrapped with their parts.
pub open spec fn wrapped_order_keys(entries: Seq<JsonView>) -> Seq<Option<Seq<char>>> {
    Seq::new(entries.len(), |i: int| message_order_key(info_or_self(entries[i])))
}

/// The identifier of a message that is wrapped with its parts.
pub open spec fn wrapped_id(entry: JsonView) -> Option<Seq<char>> {
    text::trimmed_some(json::as_str_of(json::get_of(entry.get("info"@), "id"@)))
}

/// The last identifier among messages.
pub open spec fn last_id(entries: Seq<JsonView>) -> Option<Seq<char>>
    decreases entries.len(),
{
    if entries.len() == 0 {
        None
    } else {
        match wrapped_id(entries.last()) {
            Some(id) => Some(id),
            None => last_id(entries.drop_last()),
        }
    }
}

/// The identifier of the youngest message that has one.
pub open spec fn last_revertable(entries: Seq<JsonView>) -> Option<Seq<char>> {
    last_id(
        sort::reordered(
            entries,
            sort::sorted_order(entries.len(), sort::text_less(wrapped_order_keys(entries))),
        ),
    )
}

/// The identifier of the youngest message that has one.
pub fn last_revertable_message_id(messages: &Vec<Json>) -> (r: Option<String>)
    ensures
        text::opt_string(r) == last_revertable(json::json_views(messages@)),
{
    let mut keys: Vec<Option<String>> = Vec::new();
    let mut i: usize = 0;
    let ghost all = json::json_views(messages@);
    while i < messages.len()
        invariant
            i <= messages@.len(),
            keys@.len() == i,
            all == json::json_views(messages@),
            forall|k: int|
                0 <= k < i ==> text::opt_string(#[trigger] keys@[k]) == message_order_key(info_or_self(all[k])),
        decreases messages@.len() - i,
    {
        let entry = &messages[i];
        let key: Option<String> = match entry.get("info") {
            Some(info) => replay_message_order_key(info),
            None => replay_message_order_key(entry),
        };
        keys.push(key);
        i = i + 1;
    }
    assert(sort::opt_strings(keys@) =~= wrapped_order_keys(all));
    let order: Vec<usize> = order_by_texts(&keys);
    let ordered: Vec<Json> = reorder(messages, &order);
    let ghost row = json::json_views(ordered@);
    let mut n: usize = ordered.len();
    assert(row.take(n as int) =~= row);
    while n > 0
        invariant
            n <= ordered@.len(),
            row == json::json_views(ordered@),
            last_revertable(json::json_views(messages@)) == last_id(row.take(n as int)),
        decreases n,
    {
        proof {
            assert(row.take(n as int).drop_last() =~= row.take(n - 1));
            assert(row.take(n as int).last() == row[n - 1]);
        }
        if let Some(id) = trim_some(as_str_in(get_in(ordered[n - 1].get("info"), "id"))) {
            return Some(id.to_owned());
        }
        n = n - 1;
    }
    None
}

/// The message that an undo takes back, with all that follow it: the youngest one that has an
/// identifier.
pub open spec fn message_to_undo(messages: JsonView) -> Result<Seq<char>, Seq<char>> {
    match messages.as_array() {
        Some(entries) => match last_revertable(entries) {
            Some(id) => Ok(id),
            None => Err("No messages available to undo in this thread."@),
        },
        None => Err("Invalid message list returned for undo."@),
    }
}

/// The message that an undo takes back, with all that follow it.
pub fn undo_target(messages: &Json) -> (r: Result<String, String>)
    ensures
        text::result_text(r) == message_to_undo(messages@),
{
    match messages.as_array() {
        Some(entries) => match last_revertable_message_id(entries) {
            Some(id) => Ok(id),
            None => Err("No messages available to undo in this thread.".to_owned()),
        },
        None => Err("Invalid message list returned for undo.".to_owned()),
    }
}

// ---------------------------------------------------------------------------
// Pending reverts
// ---------------------------------------------------------------------------

/// What a session's pending revert takes back: from which message on, and, where it names a part,
/// from which part of that message on.
pub open spec fn pending_revert(session_details: Option<JsonView>) -> Option<(Seq<char>, Option<Seq<char>>)> {
    match json::get_of(session_details, "revert"@) {
        Some(JsonView::Object(entries)) => {
            let revert = JsonView::Object(entries);
            match text::trimmed_some(
                json::as_str_of(json::either_of(revert.get("messageID"@), revert.get("messageId"@))),
            ) {
                Some(message_id) => Some(
                    (
                        message_id,
                        text::trimmed_some(
                            json::as_str_of(json::either_of(revert.get("partID"@), revert.get("partId"@))),
                        ),
                    ),
                ),
                None => None,
            }
        },
        _ => None,
    }
}

/// The identifier of a message or of one of its parts, without the white space around it.
pub open spec fn trimmed_id(id: Option<Seq<char>>) -> Seq<char> {
    text::trim_of(text::text_or(id, ""@))
}

/// The index of the first message with the given identifier, from `from` on.
pub open spec fn message_from(entries: Seq<JsonView>, message_id: Seq<char>, from: int) -> Option<int>
    decreases entries.len() - from,
{
    if from < 0 || from >= entries.len() {
        None
    } else if trimmed_id(json::as_str_of(json::get_of(entries[from].get("info"@), "id"@))) == message_id {
        Some(from)
    } else {
        message_from(entries, message_id, from + 1)
    }
}

/// The index of the first part with the given identifier, from `from` on.
pub open spec fn part_from(parts: Seq<JsonView>, part_id: Seq<char>, from: int) -> Option<int>
    decreases parts.len() - from,
{
    if from < 0 || from >= parts.len() {
        None
    } else if trimmed_id(parts[from].get_str("id"@)) == part_id {
        Some(from)
    } else {
        part_from(parts, part_id, from + 1)
    }
}

/// A message without the part of the given identifier and those behind it.
pub open spec fn cut_message(entry: JsonView, part_id: Seq<char>) -> JsonView {
    match json::as_array_of(entry.get("parts"@)) {
        Some(parts) => match part_from(parts, part_id, 0) {
            Some(i) => entry.with("parts"@, JsonView::Array(parts.take(i))),
            None => entry,
        },
        None => entry,
    }
}

/// The messages that a pending revert leaves: those before the message that it names, and, where
/// it names a part, that message up to the part. All are left where the message is not there.
pub open spec fn after_revert(entries: Seq<JsonView>, session_details: Option<JsonView>) -> Seq<JsonView> {
    match pending_revert(session_details) {
        Some((message_id, part_id)) => match message_from(entries, message_id, 0) {
            Some(i) => match part_id {
                Some(p) => entries.take(i).push(cut_message(entries[i], p)),
                None => entries.take(i),
            },
            None => entries,
        },
        None => entries,
    }
}

fn find_part(parts: &Vec<Json>, part_id: &str) -> (r: Option<usize>)
    ensures
        match r {
            Some(i) => i < parts@.len() && part_from(json::json_views(parts@), part_id@, 0) == Some(i as int),
            None => part_from(json::json_views(parts@), part_id@, 0) is None,
        },
{
    let mut i: usize = 0;
    let ghost all = json::json_views(parts@);
    while i < parts.len()
        invariant
            i <= parts@.len(),
            all == json::json_views(parts@),
            part_from(all, part_id@, 0) == part_from(all, part_id@, i as int),
        decreases parts@.len() - i,
    {
        if str_eq(trim(str_or(parts[i].get_str("id"), "")), part_id) {
            return Some(i);
        }
        i = i + 1;
    }
    None
}

fn find_message(messages: &Vec<Json>, message_id: &str) -> (r: Option<usize>)
    ensures
        match r {
            Some(i) => i < messages@.len() && message_from(json::json_views(messages@), message_id@, 0) == Some(
                i as int,
            ),
            None => message_from(json::json_views(messages@), message_id@, 0) is None,
        },
{
    let mut i: usize = 0;
    let ghost all = json::json_views(messages@);
    while i < messages.len()
        invariant
            i <= messages@.len(),
            all == json::json_views(messages@),
            message_from(all, message_id@, 0) == message_from(all, message_id@, i as int),
        decreases messages@.len() - i,
    {
        if str_eq(trim(str_or(as_str_in(get_in(messages[i].get("info"), "id")), "")), message_id) {
            return Some(i);
        }
        i = i + 1;
    }
    None
}

/// The first `n` values of a list.
pub fn clone_first(items: &Vec<Json>, n: usize) -> (r: Vec<Json>)
    requires
        n <= items@.len(),
    ensures
        json::json_views(r@) == json::json_views(items@).take(n as int),
{
    let mut out: Vec<Json> = Vec::new();
    let mut i: usize = 0;
    while i < n
        invariant
            i <= n <= items@.len(),
            out@.len() == i,
            forall|k: int| 0 <= k < i ==> (#[trigger] out@[k])@ == items@[k]@,
        decreases n - i,
    {
        out.push(items[i].clone());
        i = i + 1;
    }
    assert(json::json_views(out@) =~= json::json_views(items@).take(n as int));
    out
}

fn cut_message_at(entry: &Json, part_id: &str) -> (r: Json)
    ensures
        r@ == cut_message(entry@, part_id@),
{
    match as_array_in(entry.get("parts")) {
        Some(parts) => match find_part(parts, part_id) {
            Some(i) => entry.clone().with("parts", Json::array(clone_first(parts, i))),
            None => entry.clone(),
        },
        None => entry.clone(),
    }
}

/// Takes out of the messages what a pending revert takes back.
pub fn apply_pending_revert_to_replay_messages(messages: &mut Vec<Json>, session_details: Option<&Json>)
    ensures
        json::json_views(final(messages)@) == after_revert(
            json::json_views(old(messages)@),
            json::opt_json(session_details),
        ),
{
    let revert = match get_in(session_details, "revert") {
        Some(Json::Object(entries)) => get_in(session_details, "revert"),
        _ => return,
    };
    let message_id: &str = match trim_some(
        as_str_in(either(get_in(revert, "messageID"), get_in(revert, "messageId"))),
    ) {
        Some(id) => id,
        None => return,
    };
    let part_id: Option<&str> = trim_some(as_str_in(either(get_in(revert, "partID"), get_in(revert, "partId"))));
    match find_message(messages, message_id) {
        Some(i) => {
            let mut kept: Vec<Json> = clone_first(messages, i);
            if let Some(p) = part_id {
                let cut: Json = cut_message_at(&messages[i], p);
                push_json(&mut kept, cut);
            }
            *messages = kept;
        },
        None => {},
    }
}

// ---------------------------------------------------------------------------
// Tool calls
// ---------------------------------------------------------------------------

/// The item type that shows a replayed tool of the given kind.
pub open spec fn replay_item_type_of(tool_name: Seq<char>) -> Seq<char> {
    if tool_name == "edit"@ || tool_name == "write"@ || tool_name == "create"@ || tool_name == "apply_patch"@ {
        "fileChange"@
    } else if tool_name == "bash"@ || tool_name == "command"@ || tool_name == "terminal"@ {
        "commandExecution"@
    } else if tool_name == "task"@ {
        "collabToolCall"@
    } else if tool_name == "todowrite"@ {
        "todowrite"@
    } else {
        "commandExecution"@
    }
}

/// The item type that shows a replayed tool of the given kind.
pub fn replay_tool_kind_to_item_type(tool_name: &str) -> (r: &'static str)
    ensures
        r@ == replay_item_type_of(tool_name@),
{
    if str_eq(tool_name, "edit") || str_eq(tool_name, "write") || str_eq(tool_name, "create") || str_eq(
        tool_name,
        "apply_patch",
    ) {
        "fileChange"
    } else if str_eq(tool_name, "bash") || str_eq(tool_name, "command") || str_eq(tool_name, "terminal") {
        "commandExecution"
    } else if str_eq(tool_name, "task") {
        "collabToolCall"
    } else if str_eq(tool_name, "todowrite") {
        "todowrite"
    } else {
        "commandExecution"
    }
}

/// What a task asks for.
pub fn replay_collab_prompt_from_raw_input(raw_input: Option<&Json>) -> (r: String)
    ensures
        r@ == tool_items::task_prompt_of(json::opt_json(raw_input)),
{
    task_collab_prompt(raw_input)
}

/// The status of the agent that a task names; nothing where it names none.
pub fn replay_collab_agent_status(item_status: &str, raw_input: Option<&Json>) -> (r: Option<Json>)
    ensures
        json::opt_json_owned(r) == tool_items::task_agent_status_map_of(item_status@, json::opt_json(raw_input)),
{
    task_collab_agent_status_map(item_status, raw_input)
}

/// The command of a replayed tool: a string as it stands, or strings with a space between each
/// two, or else the name of the tool.
pub open spec fn replay_command(raw_input: Option<JsonView>, tool_name: Seq<char>) -> Seq<char> {
    match json::get_of(raw_input, "command"@) {
        Some(JsonView::Text(s)) => s,
        Some(JsonView::Array(items)) => text::joined(event_translator::strings_of(items), " "@),
        _ => tool_name,
    }
}

/// The working directory of a replayed tool: the first of three fields that is a string and not
/// empty.
pub open spec fn replay_cwd(input: JsonView) -> Option<Seq<char>> {
    match threads::non_empty(input.get_str("workdir"@)) {
        Some(s) => Some(s),
        None => match threads::non_empty(input.get_str("cwd"@)) {
            Some(s) => Some(s),
            None => threads::non_empty(input.get_str("path"@)),
        },
    }
}

/// The path of the file of a replayed tool: the first of two fields that is a string and not empty.
pub open spec fn replay_file(input: JsonView) -> Option<Seq<char>> {
    match threads::non_empty(input.get_str("filePath"@)) {
        Some(s) => Some(s),
        None => threads::non_empty(input.get_str("path"@)),
    }
}

/// The path of the file of a replayed tool.
pub fn replay_file_path(input: &Json) -> (r: Option<String>)
    ensures
        text::opt_string(r) == replay_file(input@),
{
    match filled(input.get_str("filePath")) {
        Some(s) => Some(s.to_owned()),
        None => owned(filled(input.get_str("path"))),
    }
}

/// The changes of a replayed tool.
pub open spec fn replay_changes(raw_input: Option<JsonView>, diffs: DiffsView) -> Seq<JsonView> {
    match raw_input {
        Some(input) => match diffs.patch_changes {
            Some(changes) => changes,
            None => match replay_file(input) {
                Some(path) => seq![tool_items::plain_change(path, diffs.edit_diff)],
                None => Seq::empty(),
            },
        },
        None => Seq::empty(),
    }
}

fn build_replay_changes(raw_input: Option<&Json>, diffs: &FileDiffs) -> (r: Vec<Json>)
    ensures
        json::json_views(r@) == replay_changes(json::opt_json(raw_input), diffs@),
{
    match raw_input {
        Some(input) => match &diffs.patch_changes {
            Some(changes) => clone_all(changes),
            None => match replay_file_path(input) {
                Some(path) => {
                    let change = Json::obj().and("path", Json::text(path.as_str())).and("kind", Json::text("modify"));
                    let change = match &diffs.edit_diff {
                        Some(d) => change.with("diff", Json::text(d.as_str())),
                        None => change,
                    };
                    one(change)
                },
                None => none(),
            },
        },
        None => none(),
    }
}

/// The item that shows a replayed tool call.
pub open spec fn replay_tool_item(
    item_id: Seq<char>,
    thread_id: Seq<char>,
    item_type: Seq<char>,
    tool_name: Seq<char>,
    status: Seq<char>,
    raw_input: Option<JsonView>,
    output: Seq<char>,
    diffs: DiffsView,
) -> JsonView {
    let item = json::obj().and("id"@, JsonView::Text(item_id)).and("type"@, JsonView::Text(item_type)).and(
        "status"@,
        JsonView::Text(status),
    );
    if item_type == "collabToolCall"@ {
        let named = item.with("tool"@, JsonView::Text(tool_name)).with("senderThreadId"@, JsonView::Text(thread_id));
        let prompt = tool_items::task_prompt_of(raw_input);
        let prompted = if prompt.len() > 0 {
            named.with("prompt"@, JsonView::Text(prompt))
        } else {
            named
        };
        match tool_items::task_agent_status_map_of(status, raw_input) {
            Some(m) => prompted.with("agentStatus"@, m),
            None => prompted,
        }
    } else if item_type == "commandExecution"@ {
        let named = item.with(
            "command"@,
            JsonView::Array(seq![JsonView::Text(replay_command(raw_input, tool_name))]),
        );
        let placed = match raw_input {
            Some(input) => match replay_cwd(input) {
                Some(cwd) => named.with("cwd"@, JsonView::Text(cwd)),
                None => named,
            },
            None => named,
        };
        tool_items::with_output(placed, "aggregatedOutput"@, Some(output))
    } else if item_type == "fileChange"@ {
        let changes = replay_changes(raw_input, diffs);
        let changed = if changes.len() > 0 {
            item.with("changes"@, JsonView::Array(changes))
        } else {
            item
        };
        tool_items::with_output(changed, "output"@, Some(output))
    } else if item_type == "todowrite"@ {
        match json::as_array_of(json::get_of(raw_input, "todos"@)) {
            Some(todos) => item.with("todos"@, JsonView::Array(tool_items::todo_items(todos))),
            None => item,
        }
    } else {
        item
    }
}

/// The item that shows a replayed tool call.
pub fn replay_build_tool_item(
    item_id: &str,
    thread_id: &str,
    item_type: &str,
    tool_name: &str,
    status: &str,
    raw_input: Option<&Json>,
    output: &str,
    diffs: &FileDiffs,
) -> (r: Json)
    ensures
        r@ == replay_tool_item(
            item_id@,
            thread_id@,
            item_type@,
            tool_name@,
            status@,
            json::opt_json(raw_input),
            output@,
            diffs@,
        ),
{
    let item = Json::obj().and("id", Json::text(item_id)).and("type", Json::text(item_type)).and(
        "status",
        Json::text(status),
    );
    if str_eq(item_type, "collabToolCall") {
        let item = item.with("tool", Json::text(tool_name)).with("senderThreadId", Json::text(thread_id));
        let prompt: String = replay_collab_prompt_from_raw_input(raw_input);
        let item = if !prompt.as_str().is_empty() {
            item.with("prompt", Json::text(prompt.as_str()))
        } else {
            item
        };
        match replay_collab_agent_status(status, raw_input) {
            Some(m) => item.with("agentStatus", m),
            None => item,
        }
    } else if str_eq(item_type, "commandExecution") {
        let command: String = match get_in(raw_input, "command") {
            Some(Json::Text(s)) => s.clone(),
            Some(Json::Array(items)) => join(&collect_strings(items), " "),
            _ => tool_name.to_owned(),
        };
        let item = item.with("command", Json::array(one(Json::text(command.as_str()))));
        let item = match raw_input {
            Some(input) => {
                let cwd: Option<&str> = match filled(input.get_str("workdir")) {
                    Some(s) => Some(s),
                    None => match filled(input.get_str("cwd")) {
                        Some(s) => Some(s),
                        None => filled(input.get_str("path")),
                    },
                };
                match cwd {
                    Some(s) => item.with("cwd", Json::text(s)),
                    None => item,
                }
            },
            None => item,
        };
        tool_items::set_output(item, "aggregatedOutput", Some(output))
    } else if str_eq(item_type, "fileChange") {
        let changes: Vec<Json> = build_replay_changes(raw_input, diffs);
        assert(json::json_views(changes@).len() == changes@.len());
        let item = if changes.len() > 0 {
            item.with("changes", Json::array(changes))
        } else {
            item
        };
        tool_items::set_output(item, "output", Some(output))
    } else if str_eq(item_type, "todowrite") {
        match as_array_in(get_in(raw_input, "todos")) {
            Some(todos) => item.with("todos", tool_items::collect_todos(todos)),
            None => item,
        }
    } else {
        item
    }
}

// ---------------------------------------------------------------------------
// Messages
// ---------------------------------------------------------------------------

/// Who wrote a message.
pub open spec fn role_of(entry: JsonView) -> Seq<char> {
    text::text_or(json::as_str_of(json::get_of(entry.get("info"@), "role"@)), "assistant"@)
}

/// The parts of a message.
pub open spec fn parts_of(entry: JsonView) -> Seq<JsonView> {
    event_translator::items_of(entry.get("parts"@))
}

/// The kind of a part.
pub open spec fn part_kind(part: JsonView) -> Seq<char> {
    text::text_or(part.get_str("type"@), ""@)
}

/// The text of a part, where it is a text part and not empty.
pub open spec fn fragment_of(part: JsonView) -> Option<Seq<char>> {
    if part_kind(part) == "text"@ {
        threads::non_empty(part.get_str("text"@))
    } else {
        None
    }
}

/// What a part shows: its text or its image.
pub open spec fn content_of(part: JsonView, stored: Map<Seq<char>, Seq<char>>) -> Option<JsonView> {
    if part_kind(part) == "text"@ {
        match fragment_of(part) {
            Some(s) => Some(prompt_parts::text_part(s)),
            None => None,
        }
    } else if part_kind(part) == "file"@ {
        match part.get_str("url"@) {
            Some(url) => Some(prompt_parts::image_content(images::image_value(url, stored))),
            None => None,
        }
    } else {
        None
    }
}

/// The texts of the parts of a message.
pub open spec fn fragments(parts: Seq<JsonView>) -> Seq<Seq<char>>
    decreases parts.len(),
{
    if parts.len() == 0 {
        Seq::empty()
    } else {
        match fragment_of(parts.last()) {
            Some(s) => fragments(parts.drop_last()).push(s),
            None => fragments(parts.drop_last()),
        }
    }
}

/// What the parts of a message show.
pub open spec fn contents(parts: Seq<JsonView>, stored: Map<Seq<char>, Seq<char>>) -> Seq<JsonView>
    decreases parts.len(),
{
    if parts.len() == 0 {
        Seq::empty()
    } else {
        match content_of(parts.last(), stored) {
            Some(c) => contents(parts.drop_last(), stored).push(c),
            None => contents(parts.drop_last(), stored),
        }
    }
}

/// The tool calls among the parts of a message.
pub open spec fn tool_parts(parts: Seq<JsonView>) -> Seq<JsonView>
    decreases parts.len(),
{
    if parts.len() == 0 {
        Seq::empty()
    } else if part_kind(parts.last()) == "tool"@ {
        tool_parts(parts.drop_last()).push(parts.last())
    } else {
        tool_parts(parts.drop_last())
    }
}

fn collect_parts(
    parts: &Vec<Json>,
    stored: &StrMap<String>,
    texts: &mut Vec<String>,
    content: &mut Vec<Json>,
    tools: &mut Vec<Json>,
)
    requires
        old(texts)@.len() == 0,
        old(content)@.len() == 0,
        old(tools)@.len() == 0,
    ensures
        text::texts(final(texts)@) == fragments(json::json_views(parts@)),
        json::json_views(final(content)@) == contents(json::json_views(parts@), stored@),
        json::json_views(final(tools)@) == tool_parts(json::json_views(parts@)),
{
    let mut i: usize = 0;
    let ghost all = json::json_views(parts@);
    assert(text::texts(texts@) =~= fragments(all.take(0)));
    assert(json::json_views(content@) =~= contents(all.take(0), stored@));
    assert(json::json_views(tools@) =~= tool_parts(all.take(0)));
    while i < parts.len()
        invariant
            i <= parts@.len(),
            all == json::json_views(parts@),
            text::texts(texts@) == fragments(all.take(i as int)),
            json::json_views(content@) == contents(all.take(i as int), stored@),
            json::json_views(tools@) == tool_parts(all.take(i as int)),
        decreases parts@.len() - i,
    {
        proof {
            assert(all.take(i + 1).drop_last() =~= all.take(i as int));
            assert(all.take(i + 1).last() == all[i as int]);
            reveal_strlit("text");
            reveal_strlit("file");
            reveal_strlit("tool");
            assert("text"@[1] != "file"@[1]);
            assert("text"@[1] != "tool"@[1]);
            assert("file"@[0] != "tool"@[0]);
        }
        let part = &parts[i];
        let kind: &str = str_or(part.get_str("type"), "");
        if str_eq(kind, "text") {
            if let Some(s) = filled(part.get_str("text")) {
                let ghost before = text::texts(texts@);
                texts.push(s.to_owned());
                assert(text::texts(texts@) =~= before.push(s@));
                push_json(content, build_text_part(s));
            }
        } else if str_eq(kind, "tool") {
            push_json(tools, part.clone());
        } else if str_eq(kind, "file") {
            if let Some(url) = part.get_str("url") {
                push_json(content, build_image_content(frontend_image_value(url, stored).as_str()));
            }
        }
        i = i + 1;
    }
    assert(all.take(all.len() as int) =~= all);
}

/// The name, the status, the input and the output of a tool call. A call without a state of its
/// own counts as completed.
pub open spec fn tool_call(part: JsonView) -> (Seq<char>, Seq<char>, Option<JsonView>, Seq<char>) {
    let name = text::text_or(json::as_str_of(json::either_of(part.get("tool"@), part.get("name"@))), "unknown"@);
    let state = part.get("state"@);
    match state {
        Some(JsonView::Object(entries)) => {
            let object = JsonView::Object(entries);
            (
                name,
                text::text_or(object.get_str("status"@), "completed"@),
                object.get("input"@),
                text::text_or(object.get_str("output"@), ""@),
            )
        },
        _ => (
            name,
            text::text_or(json::as_str_of(state), "completed"@),
            None,
            text::text_or(part.get_str("output"@), ""@),
        ),
    }
}

/// The item that shows a replayed tool part.
pub open spec fn tool_part_item(
    part: JsonView,
    item_id: Seq<char>,
    thread_id: Seq<char>,
    diffs: DiffsView,
) -> JsonView {
    let (name, status, input, output) = tool_call(part);
    let shown = if status == "error"@ {
        "failed"@
    } else {
        "completed"@
    };
    replay_tool_item(item_id, thread_id, replay_item_type_of(name), name, shown, input, output, diffs)
}

fn build_tool_part_item(part: &Json, item_id: &str, thread_id: &str, diffs: &FileDiffs) -> (r: Json)
    ensures
        r@ == tool_part_item(part@, item_id@, thread_id@, diffs@),
{
    let name: &str = str_or(as_str_in(either(part.get("tool"), part.get("name"))), "unknown");
    let state = part.get("state");
    let is_object: bool = match state {
        Some(Json::Object(_)) => true,
        _ => false,
    };
    let status: &str = if is_object {
        str_or(as_str_in(get_in(state, "status")), "completed")
    } else {
        str_or(as_str_in(state), "completed")
    };
    let input: Option<&Json> = if is_object {
        get_in(state, "input")
    } else {
        None
    };
    let output: &str = if is_object {
        str_or(as_str_in(get_in(state, "output")), "")
    } else {
        str_or(part.get_str("output"), "")
    };
    let shown: &str = if str_eq(status, "error") {
        "failed"
    } else {
        "completed"
    };
    replay_build_tool_item(
        item_id,
        thread_id,
        replay_tool_kind_to_item_type(name),
        name,
        shown,
        input,
        output,
        diffs,
    )
}

/// The identifier of a replayed item.
pub open spec fn replay_item_id(n: nat) -> Seq<char> {
    "replay_item_"@ + text::decimal(n)
}

/// The diffs of a list, as mathematical values.
pub open spec fn diffs_views(diffs: Seq<FileDiffs>) -> Seq<DiffsView> {
    diffs.map_values(|d: FileDiffs| d@)
}

/// The diffs of the tool call with the given number; none where they were not made.
pub open spec fn diffs_at(diffs: Seq<DiffsView>, i: int) -> DiffsView {
    if 0 <= i < diffs.len() {
        diffs[i]
    } else {
        DiffsView { patch_changes: None, edit_diff: None }
    }
}

/// A replay on its way: the state, how many items and tool calls were replayed, and the messages.
pub struct ReplayView {
    pub state: StateView,
    pub items: nat,
    pub tools: nat,
    pub events: Seq<JsonView>,
}

/// The message for a replayed tool part.
pub open spec fn tool_part_message(
    part: JsonView,
    item: nat,
    thread_id: Seq<char>,
    diffs: DiffsView,
) -> JsonView {
    event_translator::item_message(
        "item/completed"@,
        thread_id,
        tool_part_item(part, replay_item_id(item), thread_id, diffs),
    )
}

/// The replay after the tool parts of a message: each gets an item.
pub open spec fn tools_replayed(
    v: ReplayView,
    tools: Seq<JsonView>,
    thread_id: Seq<char>,
    diffs: Seq<DiffsView>,
) -> ReplayView
    decreases tools.len(),
{
    if tools.len() == 0 {
        v
    } else {
        let before = tools_replayed(v, tools.drop_last(), thread_id, diffs);
        ReplayView {
            items: before.items + 1,
            tools: before.tools + 1,
            events: before.events.push(
                tool_part_message(
                    tools.last(),
                    before.items + 1,
                    thread_id,
                    diffs_at(diffs, before.tools as int),
                ),
            ),
            ..before
        }
    }
}

/// The item of a replayed message of the agent.
pub open spec fn agent_message_item(item_id: Seq<char>, parts: Seq<JsonView>, content: Seq<JsonView>) -> JsonView {
    json::obj().and("id"@, JsonView::Text(item_id)).and("type"@, JsonView::Text("agentMessage"@)).and(
        "text"@,
        JsonView::Text(text::joined(fragments(parts), "\n\n"@)),
    ).and("content"@, JsonView::Array(content))
}

/// The replay after what a message shows. A message of the user gets the identifier that the
/// session's user message has, and the next one will get a new one.
pub open spec fn content_replayed(
    v: ReplayView,
    entry: JsonView,
    thread_id: Seq<char>,
    stored: Map<Seq<char>, Seq<char>>,
) -> ReplayView {
    let parts = parts_of(entry);
    let content = contents(parts, stored);
    if content.len() == 0 {
        v
    } else if role_of(entry) == "user"@ {
        let (s, id) = v.state.user_message_item(thread_id);
        ReplayView {
            state: s.mark_new_replayed_user_message_boundary(),
            events: v.events.push(
                event_translator::item_message(
                    "item/completed"@,
                    thread_id,
                    event_translator::user_message_item(id, JsonView::Array(content)),
                ),
            ),
            ..v
        }
    } else {
        ReplayView {
            items: v.items + 1,
            events: v.events.push(
                event_translator::item_message(
                    "item/completed"@,
                    thread_id,
                    agent_message_item(replay_item_id(v.items + 1), parts, content),
                ),
            ),
            ..v
        }
    }
}

/// The replay after one more message.
pub open spec fn message_replayed(
    v: ReplayView,
    entry: JsonView,
    thread_id: Seq<char>,
    stored: Map<Seq<char>, Seq<char>>,
    diffs: Seq<DiffsView>,
) -> ReplayView {
    tools_replayed(
        content_replayed(v, entry, thread_id, stored),
        tool_parts(parts_of(entry)),
        thread_id,
        diffs,
    )
}

/// The replay of messages.
pub open spec fn messages_replayed(
    v: ReplayView,
    entries: Seq<JsonView>,
    thread_id: Seq<char>,
    stored: Map<Seq<char>, Seq<char>>,
    diffs: Seq<DiffsView>,
) -> ReplayView
    decreases entries.len(),
{
    if entries.len() == 0 {
        v
    } else {
        message_replayed(
            messages_replayed(v, entries.drop_last(), thread_id, stored, diffs),
            entries.last(),
            thread_id,
            stored,
            diffs,
        )
    }
}

/// How many items a message gets that are numbered by the replay.
pub open spec fn numbered_items(entry: JsonView, stored: Map<Seq<char>, Seq<char>>) -> nat {
    let own: nat = if contents(parts_of(entry), stored).len() > 0 && role_of(entry) != "user"@ {
        1
    } else {
        0
    };
    own + tool_parts(parts_of(entry)).len()
}

/// How many items messages get that are numbered by the replay.
pub open spec fn all_numbered_items(entries: Seq<JsonView>, stored: Map<Seq<char>, Seq<char>>) -> nat
    decreases entries.len(),
{
    if entries.len() == 0 {
        0
    } else {
        all_numbered_items(entries.drop_last(), stored) + numbered_items(entries.last(), stored)
    }
}

proof fn lemma_numbered_items_grow(entries: Seq<JsonView>, stored: Map<Seq<char>, Seq<char>>, i: int)
    requires
        0 <= i <= entries.len(),
    ensures
        all_numbered_items(entries.take(i), stored) <= all_numbered_items(entries, stored),
    decreases entries.len(),
{
    if i < entries.len() {
        lemma_numbered_items_grow(entries.drop_last(), stored, i);
        assert(entries.drop_last().take(i) =~= entries.take(i));
    } else {
        assert(entries.take(i) =~= entries);
    }
}

pub proof fn lemma_tools_counted(v: ReplayView, tools: Seq<JsonView>, thread_id: Seq<char>, diffs: Seq<DiffsView>)
    ensures
        tools_replayed(v, tools, thread_id, diffs).items == v.items + tools.len(),
        tools_replayed(v, tools, thread_id, diffs).tools == v.tools + tools.len(),
        tools_replayed(v, tools, thread_id, diffs).state == v.state,
    decreases tools.len(),
{
    if tools.len() > 0 {
        lemma_tools_counted(v, tools.drop_last(), thread_id, diffs);
    }
}

/// A replay on its way.
pub struct Replay {
    pub items: u64,
    pub tools: u64,
    pub events: Vec<Json>,
}

/// Whether a replay on its way, with the state, stands where the mathematical one does.
pub open spec fn stands_at(r: Replay, s: StateView, v: ReplayView) -> bool {
    &&& v.state == s
    &&& v.items == r.items
    &&& v.tools == r.tools
    &&& v.events == json::json_views(r.events@)
}

fn replay_tools(
    replay: &mut Replay,
    tools: &Vec<Json>,
    thread_id: &str,
    diffs: &Vec<FileDiffs>,
    Ghost(v): Ghost<ReplayView>,
)
    requires
        stands_at(*old(replay), v.state, v),
        v.items + tools@.len() <= u64::MAX,
        v.tools <= v.items,
    ensures
        stands_at(
            *final(replay),
            v.state,
            tools_replayed(v, json::json_views(tools@), thread_id@, diffs_views(diffs@)),
        ),
{
    let ghost all = json::json_views(tools@);
    let ghost ds = diffs_views(diffs@);
    let none_made: FileDiffs = FileDiffs { patch_changes: None, edit_diff: None };
    let mut i: usize = 0;
    while i < tools.len()
        invariant
            i <= tools@.len(),
            all == json::json_views(tools@),
            ds == diffs_views(diffs@),
            none_made@ == (DiffsView { patch_changes: None, edit_diff: None }),
            v.items + tools@.len() <= u64::MAX,
            v.tools <= v.items,
            stands_at(*replay, v.state, tools_replayed(v, all.take(i as int), thread_id@, ds)),
        decreases tools@.len() - i,
    {
        proof {
            assert(all.take(i + 1).drop_last() =~= all.take(i as int));
            assert(all.take(i + 1).last() == all[i as int]);
            lemma_tools_counted(v, all.take(i as int), thread_id@, ds);
        }
        let at: &FileDiffs = if replay.tools < diffs.len() as u64 {
            &diffs[replay.tools as usize]
        } else {
            &none_made
        };
        assert(at@ == diffs_at(ds, replay.tools as int));
        replay.items = replay.items + 1;
        replay.tools = replay.tools + 1;
        let item_id: String = cat("replay_item_", decimal_text(replay.items).as_str());
        let item = build_tool_part_item(&tools[i], item_id.as_str(), thread_id, at);
        push_json(&mut replay.events, build_item_message("item/completed", thread_id, item));
        i = i + 1;
    }
    assert(all.take(all.len() as int) =~= all);
}

fn replay_message(
    state: &mut SessionTranslationState,
    replay: &mut Replay,
    entry: &Json,
    thread_id: &str,
    stored: &StrMap<String>,
    diffs: &Vec<FileDiffs>,
    Ghost(v): Ghost<ReplayView>,
)
    requires
        stands_at(*old(replay), old(state)@, v),
        v.items + numbered_items(entry@, stored@) <= u64::MAX,
        v.tools <= v.items,
    ensures
        stands_at(
            *final(replay),
            final(state)@,
            message_replayed(v, entry@, thread_id@, stored@, diffs_views(diffs@)),
        ),
{
    let role: &str = str_or(as_str_in(get_in(entry.get("info"), "role")), "assistant");
    let mut texts: Vec<String> = Vec::new();
    let mut content: Vec<Json> = Vec::new();
    let mut tools: Vec<Json> = Vec::new();
    match as_array_in(entry.get("parts")) {
        Some(parts) => collect_parts(parts, stored, &mut texts, &mut content, &mut tools),
        None => {},
    }
    let ghost parts = parts_of(entry@);
    proof {
        assert(text::texts(texts@) =~= fragments(parts));
        assert(json::json_views(content@) =~= contents(parts, stored@));
        assert(json::json_views(tools@) =~= tool_parts(parts));
        assert(json::json_views(content@).len() == content@.len());
        assert(json::json_views(tools@).len() == tools@.len());
    }
    let ghost v1 = content_replayed(v, entry@, thread_id@, stored@);
    if content.len() > 0 {
        if str_eq(role, "user") {
            let item_id: String = state.user_message_item(thread_id);
            push_json(
                &mut replay.events,
                build_item_message(
                    "item/completed",
                    thread_id,
                    build_user_message_item(item_id.as_str(), Json::array(content)),
                ),
            );
            state.mark_new_replayed_user_message_boundary();
        } else {
            replay.items = replay.items + 1;
            let item_id: String = cat("replay_item_", decimal_text(replay.items).as_str());
            let full_text: String = join(&texts, "\n\n");
            let item = Json::obj().and("id", Json::text(item_id.as_str())).and(
                "type",
                Json::text("agentMessage"),
            ).and("text", Json::text(full_text.as_str())).and("content", Json::array(content));
            push_json(&mut replay.events, build_item_message("item/completed", thread_id, item));
        }
    }
    proof {
        lemma_tools_counted(v1, tool_parts(parts), thread_id@, diffs_views(diffs@));
    }
    replay_tools(replay, &tools, thread_id, diffs, Ghost(v1));
}

// ---------------------------------------------------------------------------
// The whole replay
// ---------------------------------------------------------------------------

/// The messages of a replay in their order: the oldest one first, without what a pending revert
/// takes back.
pub open spec fn replay_order(messages: JsonView, session_details: Option<JsonView>) -> Seq<JsonView> {
    after_revert(chronological(event_translator::items_of(Some(messages))), session_details)
}

/// The messages of a replay in their order.
pub fn order_replay_messages(messages: &Json, session_details: Option<&Json>) -> (r: Vec<Json>)
    ensures
        json::json_views(r@) == replay_order(messages@, json::opt_json(session_details)),
{
    let mut ordered: Vec<Json> = match messages.as_array() {
        Some(list) => clone_all(list),
        None => none(),
    };
    assert(json::json_views(ordered@) =~= event_translator::items_of(Some(messages@)));
    sort_replay_messages_chronologically(&mut ordered);
    apply_pending_revert_to_replay_messages(&mut ordered, session_details);
    ordered
}

/// What the last message of the assistant says of itself.
pub open spec fn latest_assistant_info(entries: Seq<JsonView>) -> Option<JsonView>
    decreases entries.len(),
{
    if entries.len() == 0 {
        None
    } else {
        let last = entries.last();
        match last.get("info"@) {
            Some(info) => if role_of(last) == "assistant"@ {
                Some(info)
            } else {
                latest_assistant_info(entries.drop_last())
            },
            None => latest_assistant_info(entries.drop_last()),
        }
    }
}

fn find_latest_assistant_info<'a>(entries: &'a Vec<Json>) -> (r: Option<&'a Json>)
    ensures
        json::opt_json(r) == latest_assistant_info(json::json_views(entries@)),
{
    let mut n: usize = entries.len();
    let ghost all = json::json_views(entries@);
    assert(all.take(n as int) =~= all);
    while n > 0
        invariant
            n <= entries@.len(),
            all == json::json_views(entries@),
            latest_assistant_info(all) == latest_assistant_info(all.take(n as int)),
        decreases n,
    {
        proof {
            assert(all.take(n as int).drop_last() =~= all.take(n - 1));
            assert(all.take(n as int).last() == all[n - 1]);
        }
        let info = entries[n - 1].get("info");
        if info.is_some() && str_eq(str_or(as_str_in(get_in(info, "role")), "assistant"), "assistant") {
            return info;
        }
        n = n - 1;
    }
    None
}

/// The update of a message that tells its token usage.
pub open spec fn usage_properties(info: JsonView) -> JsonView {
    json::obj().and("info"@, info)
}

/// The replay of ordered messages: they are shown one after the other, and then the token usage of
/// the last message of the assistant.
pub open spec fn thread_replayed(
    s: StateView,
    thread_id: Seq<char>,
    entries: Seq<JsonView>,
    stored: Map<Seq<char>, Seq<char>>,
    diffs: Seq<DiffsView>,
) -> event_translator::Outcome {
    let start = ReplayView { state: s.prepare_replay(thread_id), items: 0, tools: 0, events: Seq::empty() };
    let v = messages_replayed(start, entries, thread_id, stored, diffs);
    match latest_assistant_info(entries) {
        Some(info) => {
            let (after, usage) = event_translator::message_updated(usage_properties(info), v.state);
            (after, v.events + usage)
        },
        None => (v.state, v.events),
    }
}

/// Whether all counts of a replay can be held.
pub open spec fn replay_fits(entries: Seq<JsonView>, stored: Map<Seq<char>, Seq<char>>) -> bool {
    &&& all_numbered_items(entries, stored) <= u64::MAX
    &&& latest_assistant_info(entries) matches Some(info) ==> event_translator::message_update_fits(
        usage_properties(info),
    )
}

fn replay_all(
    state: &mut SessionTranslationState,
    thread_id: &str,
    entries: &Vec<Json>,
    stored: &StrMap<String>,
    diffs: &Vec<FileDiffs>,
) -> (r: Vec<Json>)
    requires
        all_numbered_items(json::json_views(entries@), stored@) <= u64::MAX,
    ensures
        ({
            let start = ReplayView { state: old(state)@, items: 0, tools: 0, events: Seq::empty() };
            let v = messages_replayed(
                start,
                json::json_views(entries@),
                thread_id@,
                stored@,
                diffs_views(diffs@),
            );
            final(state)@ == v.state && json::json_views(r@) == v.events
        }),
{
    let mut replay: Replay = Replay { items: 0, tools: 0, events: none() };
    let ghost all = json::json_views(entries@);
    let ghost ds = diffs_views(diffs@);
    let ghost start = ReplayView { state: state@, items: 0, tools: 0, events: Seq::empty() };
    let mut i: usize = 0;
    while i < entries.len()
        invariant
            i <= entries@.len(),
            all == json::json_views(entries@),
            ds == diffs_views(diffs@),
            all_numbered_items(all, stored@) <= u64::MAX,
            stands_at(replay, state@, messages_replayed(start, all.take(i as int), thread_id@, stored@, ds)),
            replay.items == all_numbered_items(all.take(i as int), stored@),
            replay.tools <= replay.items,
        decreases entries@.len() - i,
    {
        let ghost v = messages_replayed(start, all.take(i as int), thread_id@, stored@, ds);
        proof {
            assert(all.take(i + 1).drop_last() =~= all.take(i as int));
            assert(all.take(i + 1).last() == all[i as int]);
            lemma_numbered_items_grow(all, stored@, i + 1);
            lemma_tools_counted(
                content_replayed(v, all[i as int], thread_id@, stored@),
                tool_parts(parts_of(all[i as int])),
                thread_id@,
                ds,
            );
        }
        replay_message(state, &mut replay, &entries[i], thread_id, stored, diffs, Ghost(v));
        i = i + 1;
    }
    assert(all.take(all.len() as int) =~= all);
    replay.events
}

/// Replays ordered messages. `stored` holds the paths of the files that keep images, by data URL,
/// and `diffs` what the diff generator made of the inputs of the tool calls, in their order.
pub fn replay_thread(
    state: &mut SessionTranslationState,
    thread_id: &str,
    entries: &Vec<Json>,
    stored: &StrMap<String>,
    diffs: &Vec<FileDiffs>,
) -> (r: Vec<Json>)
    requires
        replay_fits(json::json_views(entries@), stored@),
    ensures
        (final(state)@, json::json_views(r@)) == thread_replayed(
            old(state)@,
            thread_id@,
            json::json_views(entries@),
            stored@,
            diffs_views(diffs@),
        ),
{
    state.prepare_replay(thread_id.to_owned());
    let mut events: Vec<Json> = replay_all(state, thread_id, entries, stored, diffs);
    if let Some(info) = find_latest_assistant_info(entries) {
        let properties: Json = Json::obj().and("info", info.clone());
        let mut usage: Vec<Json> = translate_message_updated(&properties, state);
        let ghost before = json::json_views(events@);
        let ghost more = json::json_views(usage@);
        events.append(&mut usage);
        assert(json::json_views(events@) =~= before + more);
    }
    events
}

/// The inputs of the tool calls of a message, null where a call has none.
pub open spec fn tool_inputs(tools: Seq<JsonView>) -> Seq<JsonView> {
    tools.map_values(|t: JsonView| json::or_null_of(tool_call(t).2))
}

/// The inputs of the tool calls of messages, in the order in which they are replayed.
pub open spec fn all_tool_inputs(entries: Seq<JsonView>) -> Seq<JsonView>
    decreases entries.len(),
{
    if entries.len() == 0 {
        Seq::empty()
    } else {
        all_tool_inputs(entries.drop_last()) + tool_inputs(tool_parts(parts_of(entries.last())))
    }
}

fn read_tool_input(part: &Json) -> (r: Json)
    ensures
        r@ == json::or_null_of(tool_call(part@).2),
{
    let state = part.get("state");
    match state {
        Some(Json::Object(_)) => json::or_null(get_in(state, "input")),
        _ => Json::Null,
    }
}

/// The inputs of the tool calls of messages, in the order in which they are replayed.
pub fn replay_tool_inputs(entries: &Vec<Json>) -> (r: Vec<Json>)
    ensures
        json::json_views(r@) == all_tool_inputs(json::json_views(entries@)),
{
    let mut out: Vec<Json> = none();
    let ghost all = json::json_views(entries@);
    let mut i: usize = 0;
    while i < entries.len()
        invariant
            i <= entries@.len(),
            all == json::json_views(entries@),
            json::json_views(out@) == all_tool_inputs(all.take(i as int)),
        decreases entries@.len() - i,
    {
        proof {
            assert(all.take(i + 1).drop_last() =~= all.take(i as int));
            assert(all.take(i + 1).last() == all[i as int]);
        }
        let ghost before = json::json_views(out@);
        match as_array_in(entries[i].get("parts")) {
            Some(parts) => {
                let ghost ps = json::json_views(parts@);
                let mut k: usize = 0;
                assert(before + tool_inputs(tool_parts(ps.take(0))) =~= before);
                while k < parts.len()
                    invariant
                        k <= parts@.len(),
                        ps == json::json_views(parts@),
                        json::json_views(out@) == before + tool_inputs(tool_parts(ps.take(k as int))),
                    decreases parts@.len() - k,
                {
                    proof {
                        assert(ps.take(k + 1).drop_last() =~= ps.take(k as int));
                        assert(ps.take(k + 1).last() == ps[k as int]);
                    }
                    if str_eq(str_or(parts[k].get_str("type"), ""), "tool") {
                        let input: Json = read_tool_input(&parts[k]);
                        push_json(&mut out, input);
                        assert(json::json_views(out@) =~= before + tool_inputs(tool_parts(ps.take(k + 1))));
                    }
                    k = k + 1;
                }
                assert(ps.take(ps.len() as int) =~= ps);
            },
            None => {
                assert(before + tool_inputs(tool_parts(parts_of(all[i as int]))) =~= before);
            },
        }
        i = i + 1;
    }
    assert(all.take(all.len() as int) =~= all);
    out
}

/// The addresses of the files among the parts of a message.
pub open spec fn file_urls(parts: Seq<JsonView>) -> Seq<Seq<char>>
    decreases parts.len(),
{
    if parts.len() == 0 {
        Seq::empty()
    } else {
        let before = file_urls(parts.drop_last());
        match parts.last().get_str("url"@) {
            Some(url) => if part_kind(parts.last()) == "file"@ {
                before.push(url)
            } else {
                before
            },
            None => before,
        }
    }
}

/// The addresses of the files in a message.
pub fn message_file_urls(entry: &Json) -> (r: Vec<String>)
    ensures
        text::texts(r@) == file_urls(parts_of(entry@)),
{
    let mut out: Vec<String> = Vec::new();
    assert(text::texts(out@) =~= Seq::<Seq<char>>::empty());
    if let Some(parts) = as_array_in(entry.get("parts")) {
        let ghost all = json::json_views(parts@);
        let mut i: usize = 0;
        while i < parts.len()
            invariant
                i <= parts@.len(),
                all == json::json_views(parts@),
                text::texts(out@) == file_urls(all.take(i as int)),
            decreases parts@.len() - i,
        {
            proof {
                assert(all.take(i + 1).drop_last() =~= all.take(i as int));
                assert(all.take(i + 1).last() == all[i as int]);
            }
            if str_eq(str_or(parts[i].get_str("type"), ""), "file") {
                if let Some(url) = parts[i].get_str("url") {
                    let ghost before = text::texts(out@);
                    out.push(url.to_owned());
                    assert(text::texts(out@) =~= before.push(url@));
                }
            }
            i = i + 1;
        }
        assert(all.take(all.len() as int) =~= all);
    }
    out
}

fn count_numbered_items(entry: &Json, stored: &StrMap<String>) -> (r: (bool, usize))
    ensures
        numbered_items(entry@, stored@) == (if r.0 {
            1nat
        } else {
            0nat
        }) + r.1 as nat,
{
    let role: &str = str_or(as_str_in(get_in(entry.get("info"), "role")), "assistant");
    let mut texts: Vec<String> = Vec::new();
    let mut content: Vec<Json> = Vec::new();
    let mut tools: Vec<Json> = Vec::new();
    match as_array_in(entry.get("parts")) {
        Some(parts) => collect_parts(parts, stored, &mut texts, &mut content, &mut tools),
        None => {},
    }
    proof {
        assert(json::json_views(content@) =~= contents(parts_of(entry@), stored@));
        assert(json::json_views(tools@) =~= tool_parts(parts_of(entry@)));
        assert(json::json_views(content@).len() == content@.len());
        assert(json::json_views(tools@).len() == tools@.len());
    }
    (content.len() > 0 && !str_eq(role, "user"), tools.len())
}

/// Whether all counts of a replay can be held.
pub fn can_replay(entries: &Vec<Json>, stored: &StrMap<String>) -> (r: bool)
    ensures
        r == replay_fits(json::json_views(entries@), stored@),
{
    let ghost all = json::json_views(entries@);
    let mut total: u64 = 0;
    let mut i: usize = 0;
    while i < entries.len()
        invariant
            i <= entries@.len(),
            all == json::json_views(entries@),
            total == all_numbered_items(all.take(i as int), stored@),
        decreases entries@.len() - i,
    {
        proof {
            assert(all.take(i + 1).drop_last() =~= all.take(i as int));
            assert(all.take(i + 1).last() == all[i as int]);
            lemma_numbered_items_grow(all, stored@, i + 1);
        }
        let (own, tools) = count_numbered_items(&entries[i], stored);
        let one: u64 = if own {
            1
        } else {
            0
        };
        if one > u64::MAX - total || tools as u64 > u64::MAX - total - one {
            return false;
        }
        total = total + one + tools as u64;
        i = i + 1;
    }
    assert(all.take(all.len() as int) =~= all);
    match find_latest_assistant_info(entries) {
        Some(info) => {
            let properties: Json = Json::obj().and("info", info.clone());
            event_translator::message_update_can_be_counted(&properties)
        },
        None => true,
    }
}

} // verus!
