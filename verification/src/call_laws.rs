//! What the items of tool calls show: their status, their input and their output.

use vstd::prelude::*;

use crate::event_laws;
use crate::event_translator;
use crate::json;
use crate::json::JsonView;
use crate::json_text;
use crate::reading;
use crate::session_state::StateView;
use crate::text;
use crate::tool_items;
use crate::tool_items::DiffsView;

verus! {

proof fn lemma_tool_words()
    ensures
        "apply_patch"@.len() == 11,
        "bash"@.len() == 4,
        "bash"@[0] == 'b',
        "command"@.len() == 7,
        "create"@.len() == 6,
        "edit"@.len() == 4,
        "edit"@[0] == 'e',
        "glob"@.len() == 4,
        "glob"@[0] == 'g',
        "glob"@[1] == 'l',
        "grep"@.len() == 4,
        "grep"@[0] == 'g',
        "grep"@[1] == 'r',
        "list"@.len() == 4,
        "list"@[0] == 'l',
        "ls"@.len() == 2,
        "read"@.len() == 4,
        "read"@[0] == 'r',
        "task"@.len() == 4,
        "task"@[0] == 't',
        "terminal"@.len() == 8,
        "todowrite"@.len() == 9,
        "write"@.len() == 5,
{
    reveal_strlit("apply_patch");
    reveal_strlit("bash");
    reveal_strlit("command");
    reveal_strlit("create");
    reveal_strlit("edit");
    reveal_strlit("glob");
    reveal_strlit("grep");
    reveal_strlit("list");
    reveal_strlit("ls");
    reveal_strlit("read");
    reveal_strlit("task");
    reveal_strlit("terminal");
    reveal_strlit("todowrite");
    reveal_strlit("write");
}

proof fn lemma_item_words()
    ensures
        "collabToolCall"@.len() == 14,
        "commandExecution"@.len() == 16,
        "completed"@.len() == 9,
        "completed"@[0] == 'c',
        "error"@.len() == 5,
        "explore"@.len() == 7,
        "explore"@[0] == 'e',
        "explored"@.len() == 8,
        "exploring"@.len() == 9,
        "exploring"@[0] == 'e',
        "failed"@.len() == 6,
        "fileChange"@.len() == 10,
        "in_progress"@.len() == 11,
        "pending"@.len() == 7,
        "pending"@[0] == 'p',
        "running"@.len() == 7,
        "running"@[0] == 'r',
        "todowrite"@.len() == 9,
        "todowrite"@[0] == 't',
{
    reveal_strlit("collabToolCall");
    reveal_strlit("commandExecution");
    reveal_strlit("completed");
    reveal_strlit("error");
    reveal_strlit("explore");
    reveal_strlit("explored");
    reveal_strlit("exploring");
    reveal_strlit("failed");
    reveal_strlit("fileChange");
    reveal_strlit("in_progress");
    reveal_strlit("pending");
    reveal_strlit("running");
    reveal_strlit("todowrite");
}

proof fn lemma_call_names()
    ensures
        ""@.len() == 0,
        "agent"@.len() == 5,
        "agent"@[0] == 'a',
        "agentStatus"@.len() == 11,
        "aggregatedOutput"@.len() == 16,
        "changes"@.len() == 7,
        "changes"@[0] == 'c',
        "changes"@[1] == 'h',
        "command"@.len() == 7,
        "command"@[0] == 'c',
        "command"@[1] == 'o',
        "cwd"@.len() == 3,
        "delta"@.len() == 5,
        "delta"@[0] == 'd',
        "detail"@.len() == 6,
        "detail"@[0] == 'd',
        "diff"@.len() == 4,
        "diff"@[0] == 'd',
        "entries"@.len() == 7,
        "entries"@[0] == 'e',
        "filePath"@.len() == 8,
        "filePath"@[0] == 'f',
        "id"@.len() == 2,
        "input"@.len() == 5,
        "input"@[0] == 'i',
        "item"@.len() == 4,
        "item"@[0] == 'i',
        "itemId"@.len() == 6,
        "itemId"@[0] == 'i',
        "kind"@.len() == 4,
        "kind"@[0] == 'k',
        "label"@.len() == 5,
        "label"@[0] == 'l',
        "method"@.len() == 6,
        "method"@[0] == 'm',
        "output"@.len() == 6,
        "output"@[0] == 'o',
        "params"@.len() == 6,
        "params"@[0] == 'p',
        "params"@[1] == 'a',
        "part"@.len() == 4,
        "part"@[0] == 'p',
        "part"@[2] == 'r',
        "path"@.len() == 4,
        "path"@[0] == 'p',
        "path"@[2] == 't',
        "prompt"@.len() == 6,
        "prompt"@[0] == 'p',
        "prompt"@[1] == 'r',
        "reasoning"@.len() == 9,
        "reasoning"@[0] == 'r',
        "senderThreadId"@.len() == 14,
        "sessionID"@.len() == 9,
        "sessionID"@[0] == 's',
        "state"@.len() == 5,
        "state"@[0] == 's',
        "status"@.len() == 6,
        "status"@[0] == 's',
        "subtask"@.len() == 7,
        "subtask"@[0] == 's',
        "text"@.len() == 4,
        "text"@[0] == 't',
        "text"@[1] == 'e',
        "threadId"@.len() == 8,
        "threadId"@[0] == 't',
        "title"@.len() == 5,
        "title"@[0] == 't',
        "title"@[1] == 'i',
        "todos"@.len() == 5,
        "todos"@[0] == 't',
        "todos"@[1] == 'o',
        "tool"@.len() == 4,
        "tool"@[0] == 't',
        "tool"@[1] == 'o',
        "type"@.len() == 4,
        "type"@[0] == 't',
        "type"@[1] == 'y',
        "workdir"@.len() == 7,
        "workdir"@[0] == 'w',
{
    reveal_strlit("");
    reveal_strlit("agent");
    reveal_strlit("agentStatus");
    reveal_strlit("aggregatedOutput");
    reveal_strlit("changes");
    reveal_strlit("command");
    reveal_strlit("cwd");
    reveal_strlit("delta");
    reveal_strlit("detail");
    reveal_strlit("diff");
    reveal_strlit("entries");
    reveal_strlit("filePath");
    reveal_strlit("id");
    reveal_strlit("input");
    reveal_strlit("item");
    reveal_strlit("itemId");
    reveal_strlit("kind");
    reveal_strlit("label");
    reveal_strlit("method");
    reveal_strlit("output");
    reveal_strlit("params");
    reveal_strlit("part");
    reveal_strlit("path");
    reveal_strlit("prompt");
    reveal_strlit("reasoning");
    reveal_strlit("senderThreadId");
    reveal_strlit("sessionID");
    reveal_strlit("state");
    reveal_strlit("status");
    reveal_strlit("subtask");
    reveal_strlit("text");
    reveal_strlit("threadId");
    reveal_strlit("title");
    reveal_strlit("todos");
    reveal_strlit("tool");
    reveal_strlit("type");
    reveal_strlit("workdir");
}

proof fn lemma_update_kinds()
    ensures
        "message.part.delta"@.len() == 18,
        "message.part.removed"@.len() == 20,
        "message.part.removed"@[13] == 'r',
        "message.part.updated"@.len() == 20,
        "message.part.updated"@[13] == 'u',
        "message.updated"@.len() == 15,
{
    reveal_strlit("message.part.delta");
    reveal_strlit("message.part.removed");
    reveal_strlit("message.part.updated");
    reveal_strlit("message.updated");
}

/// Whether a tool changes files.
pub open spec fn changes_files(tool: Seq<char>) -> bool {
    tool == "edit"@ || tool == "write"@ || tool == "create"@ || tool == "apply_patch"@
}

/// Whether a tool looks around.
pub open spec fn explores(tool: Seq<char>) -> bool {
    tool == "read"@ || tool == "grep"@ || tool == "glob"@ || tool == "list"@ || tool == "ls"@
}

/// Whether a tool runs a command: every one that does nothing else.
pub open spec fn runs_commands(tool: Seq<char>) -> bool {
    !changes_files(tool) && !explores(tool) && tool != "task"@ && tool != "todowrite"@
}

/// Whether an event tells of a call of a tool, in a state with a status.
pub open spec fn tells_of_call(
    event: JsonView,
    part: JsonView,
    tool: Seq<char>,
    state: JsonView,
    status: Seq<char>,
) -> bool {
    &&& event.get("type"@) == reading::found("message.part.updated"@)
    &&& reading::within(event.get("properties"@), "part"@) == Some(part)
    &&& part.get("type"@) == reading::found("tool"@)
    &&& part.get("tool"@) == reading::found(tool)
    &&& part.get("state"@) == Some(state)
    &&& state.get("status"@) == reading::found(status) || state.get("status"@) is None && status == "pending"@
}

/// Whether a message shows an item of a thread, of a type and with a status.
pub open spec fn shows_item(m: JsonView, method: Seq<char>, kind: Seq<char>, status: Seq<char>) -> bool {
    &&& reading::has_method(m, method)
    &&& reading::item_field(m, "type"@) == reading::found(kind)
    &&& reading::item_field(m, "status"@) == reading::found(status)
}

proof fn lemma_call_messages(
    event: JsonView,
    s: StateView,
    diffs: DiffsView,
    part: JsonView,
    tool: Seq<char>,
    state: JsonView,
    status: Seq<char>,
) -> (r: (Seq<char>, Seq<char>, Seq<char>))
    requires
        tells_of_call(event, part, tool, state, status),
    ensures
        event_translator::sse_event(event, s, diffs).1 == event_translator::tool_messages(
            r.0,
            r.1,
            r.2,
            tool,
            status,
            state,
            diffs,
        ),
        r.1 == event_translator::sse_event(event, s, diffs).0.session_id,
{
    lemma_update_kinds();
    lemma_call_names();
    let s1 = event_translator::entered(s, part.get_str("sessionID"@));
    let id = text::text_or(part.get_str("id"@), ""@);
    assert("pending"@ == "pending"@);
    (s1.tool_call_item(s1.session_id, id).1, s1.session_id, s1.turn(s1.session_id).turn_id)
}

// ---------------------------------------------------------------------------
// Commands and file changes
// ---------------------------------------------------------------------------

proof fn lemma_item_output(
    item_id: Seq<char>,
    kind: Seq<char>,
    title: Seq<char>,
    status: Seq<char>,
    input: Option<JsonView>,
    output: Option<Seq<char>>,
    diffs: DiffsView,
)
    requires
        kind == "commandExecution"@ || kind == "fileChange"@,
    ensures
        ({
            let item = tool_items::tool_item(item_id, kind, title, status, input, output, None, diffs);
            let name = if kind == "fileChange"@ {
                "output"@
            } else {
                "aggregatedOutput"@
            };
            &&& item.get("id"@) == reading::found(item_id)
            &&& item.get("type"@) == reading::found(kind)
            &&& item.get("status"@) == reading::found(status)
            &&& output matches Some(o) ==> (text::trim_of(o).len() > 0 ==> item.get(name) == reading::found(o))
            &&& output matches Some(o) ==> (text::trim_of(o).len() == 0 ==> item.get(name) is None)
            &&& output is None ==> item.get(name) is None
        }),
{
    broadcast use reading::group_reading;
    lemma_call_names();
    lemma_item_words();
}

/// A call of a command, or one that changes files, that has ended is shown by one message: with its
/// very output, unless that is nothing but white space, and as completed, or as failed where the
/// call ended in an error.
pub proof fn law_ended_call_shows_its_output(
    event: JsonView,
    s: StateView,
    diffs: DiffsView,
    part: JsonView,
    tool: Seq<char>,
    state: JsonView,
    status: Seq<char>,
)
    requires
        tells_of_call(event, part, tool, state, status),
        runs_commands(tool) || changes_files(tool),
        status == "completed"@ || status == "error"@,
    ensures
        ({
            let messages = event_translator::sse_event(event, s, diffs).1;
            let kind = if changes_files(tool) {
                "fileChange"@
            } else {
                "commandExecution"@
            };
            let name = if changes_files(tool) {
                "output"@
            } else {
                "aggregatedOutput"@
            };
            let shown = if status == "error"@ {
                "failed"@
            } else {
                "completed"@
            };
            &&& messages.len() == 1
            &&& shows_item(messages[0], "item/completed"@, kind, shown)
            &&& match state.get("output"@) {
                Some(JsonView::Text(output)) => if text::trim_of(output).len() > 0 {
                    reading::item_field(messages[0], name) == reading::found(output)
                } else {
                    reading::item_field(messages[0], name) is None
                },
                _ => reading::item_field(messages[0], name) is None,
            }
        }),
{
    let (item_id, thread, turn) = lemma_call_messages(event, s, diffs, part, tool, state, status);
    lemma_tool_words();
    lemma_item_words();
    event_laws::lemma_item_messages_read();
    let kind = tool_items::item_type_of(tool);
    let shown = if status == "completed"@ {
        "completed"@
    } else {
        "failed"@
    };
    let output = Some(text::text_or(state.get_str("output"@), ""@));
    lemma_item_output(item_id, kind, tool, shown, state.get("input"@), output, diffs);
    assert(""@.len() == 0) by {
        lemma_call_names();
    }
    assert(text::trim_of(""@).len() == 0);
}

/// A call that waits or runs is shown as started and in progress, without an output; what it was
/// given follows in a second message to the same item, and the notation of its input is what that
/// one carries, but for patches.
pub proof fn law_running_call_shows_its_input(
    event: JsonView,
    s: StateView,
    diffs: DiffsView,
    part: JsonView,
    tool: Seq<char>,
    state: JsonView,
    status: Seq<char>,
)
    requires
        tells_of_call(event, part, tool, state, status),
        runs_commands(tool) || changes_files(tool),
        status == "pending"@ || status == "running"@,
    ensures
        ({
            let messages = event_translator::sse_event(event, s, diffs).1;
            let kind = if changes_files(tool) {
                "fileChange"@
            } else {
                "commandExecution"@
            };
            let method = if changes_files(tool) {
                "item/fileChange/outputDelta"@
            } else {
                "item/commandExecution/outputDelta"@
            };
            &&& 1 <= messages.len() <= 2
            &&& shows_item(messages[0], "item/started"@, kind, "in_progress"@)
            &&& reading::item_field(messages[0], "output"@) is None
            &&& reading::item_field(messages[0], "aggregatedOutput"@) is None
            &&& state.get("input"@) is None ==> messages.len() == 1
            &&& messages.len() == 2 ==> {
                &&& reading::has_method(messages[1], method)
                &&& reading::param(messages[1], "itemId"@) == reading::item_field(messages[0], "id"@)
            }
            &&& state.get("input"@) matches Some(input) ==> (tool != "apply_patch"@
                ==> match json_text::pretty_text(json_text::canonical(input)) {
                Some(notation) => if notation.len() > 0 {
                    messages.len() == 2 && reading::param(messages[1], "delta"@) == reading::found(notation)
                } else {
                    messages.len() == 1
                },
                None => messages.len() == 1,
            })
            &&& state.get("input"@) matches Some(input) ==> (tool == "apply_patch"@ ==> match tool_items::patch_delta_summary(
                input,
                diffs,
            ) {
                Some(summary) => if summary.len() > 0 {
                    messages.len() == 2 && reading::param(messages[1], "delta"@) == reading::found(summary)
                } else {
                    messages.len() == 1
                },
                None => messages.len() == 2 && reading::param(messages[1], "delta"@) == reading::found(
                    "Applying patch..."@,
                ),
            })
        }),
{
    let (item_id, thread, turn) = lemma_call_messages(event, s, diffs, part, tool, state, status);
    lemma_tool_words();
    lemma_item_words();
    event_laws::lemma_item_messages_read();
    let kind = tool_items::item_type_of(tool);
    lemma_item_output(item_id, kind, tool, "in_progress"@, state.get("input"@), None, diffs);
    lemma_one_output(item_id, kind, tool, "in_progress"@, state.get("input"@), diffs);
    reveal_strlit("Applying patch...");
    assert("Applying patch..."@.len() > 0);
    assert forall|method: Seq<char>, delta: Seq<char>| {
        let m = #[trigger] event_translator::message(
            method,
            json::obj().and("threadId"@, JsonView::Text(thread)).and("itemId"@, JsonView::Text(item_id)).and(
                "delta"@,
                JsonView::Text(delta),
            ),
        );
        &&& reading::has_method(m, method)
        &&& reading::param(m, "itemId"@) == reading::found(item_id)
        &&& reading::param(m, "delta"@) == reading::found(delta)
    } by {
        broadcast use reading::group_reading;
        lemma_call_names();
    }
}

proof fn lemma_one_output(
    item_id: Seq<char>,
    kind: Seq<char>,
    title: Seq<char>,
    status: Seq<char>,
    input: Option<JsonView>,
    diffs: DiffsView,
)
    requires
        kind == "commandExecution"@ || kind == "fileChange"@,
    ensures
        tool_items::tool_item(item_id, kind, title, status, input, None, None, diffs).get("output"@) is None,
        tool_items::tool_item(item_id, kind, title, status, input, None, None, diffs).get("aggregatedOutput"@) is None,
{
    broadcast use reading::group_reading;
    lemma_call_names();
    lemma_item_words();
}

proof fn lemma_item_command(
    item_id: Seq<char>,
    title: Seq<char>,
    status: Seq<char>,
    input: Option<JsonView>,
    output: Option<Seq<char>>,
    diffs: DiffsView,
)
    ensures
        ({
            let item = tool_items::tool_item(
                item_id,
                "commandExecution"@,
                title,
                status,
                input,
                output,
                None,
                diffs,
            );
            let words = match input {
                Some(x) => tool_items::command_parts_of(x, title),
                None => tool_items::one_trimmed(title),
            };
            &&& words.len() > 0 ==> item.get("command"@) == Some(json::text_array(words))
            &&& words.len() == 0 ==> item.get("command"@) is None
            &&& input is None ==> item.get("cwd"@) is None
            &&& input matches Some(x) ==> if tool_items::cwd_of(x).len() > 0 {
                item.get("cwd"@) == reading::found(tool_items::cwd_of(x))
            } else {
                item.get("cwd"@) is None
            }
        }),
{
    broadcast use reading::group_reading;
    lemma_call_names();
    lemma_item_words();
}

/// The item of a command shows the command that was given: a line as one word, without white space
/// around it, and words as they are; where none was given, the name of the tool.
pub proof fn law_call_shows_its_command(
    event: JsonView,
    s: StateView,
    diffs: DiffsView,
    part: JsonView,
    tool: Seq<char>,
    state: JsonView,
    status: Seq<char>,
)
    requires
        tells_of_call(event, part, tool, state, status),
        runs_commands(tool),
        status == "completed"@ || status == "error"@ || status == "pending"@ || status == "running"@,
    ensures
        ({
            let m = event_translator::sse_event(event, s, diffs).1[0];
            let shown = reading::item_field(m, "command"@);
            let command = reading::within(state.get("input"@), "command"@);
            &&& command matches Some(JsonView::Text(line)) ==> (text::trim_of(line).len() > 0 ==> shown == Some(
                JsonView::Array(seq![JsonView::Text(text::trim_of(line))]),
            ))
            &&& command matches Some(JsonView::Array(words)) ==> (words.len() > 0 && (forall|i: int|
                0 <= i < words.len() ==> is_word(#[trigger] words[i])) ==> shown == command)
            &&& command is None && text::trim_of(tool).len() > 0 ==> shown == Some(
                JsonView::Array(seq![JsonView::Text(text::trim_of(tool))]),
            )
        }),
{
    let (item_id, thread, turn) = lemma_call_messages(event, s, diffs, part, tool, state, status);
    lemma_tool_words();
    lemma_item_words();
    event_laws::lemma_item_messages_read();
    let input = state.get("input"@);
    let output = Some(text::text_or(state.get_str("output"@), ""@));
    lemma_item_command(item_id, tool, "in_progress"@, input, None, diffs);
    lemma_item_command(item_id, tool, "completed"@, input, output, diffs);
    lemma_item_command(item_id, tool, "failed"@, input, output, diffs);
    let command = reading::within(input, "command"@);
    if let Some(JsonView::Text(line)) = command {
        assert(json::text_array(seq![text::trim_of(line)]) == JsonView::Array(
            seq![JsonView::Text(text::trim_of(line))],
        )) by {
            lemma_text_array_of_one(text::trim_of(line));
        }
    }
    lemma_text_array_of_one(text::trim_of(tool));
    if let Some(JsonView::Array(words)) = command {
        if forall|i: int| 0 <= i < words.len() ==> is_word(#[trigger] words[i]) {
            lemma_words_stay(words);
        }
    }
}

/// Whether a value is a word: a text with something in it and no white space around it.
pub open spec fn is_word(j: JsonView) -> bool {
    j matches JsonView::Text(s) && s.len() > 0 && text::trim_of(s) == s
}

proof fn lemma_text_array_of_one(s: Seq<char>)
    ensures
        json::text_array(seq![s]) == JsonView::Array(seq![JsonView::Text(s)]),
{
    assert(json::text_array(seq![s])->Array_0 =~= seq![JsonView::Text(s)]);
}

proof fn lemma_words_stay(words: Seq<JsonView>)
    requires
        forall|i: int| 0 <= i < words.len() ==> is_word(#[trigger] words[i]),
    ensures
        json::text_array(tool_items::trimmed_strings(words)) == JsonView::Array(words),
        tool_items::trimmed_strings(words).len() == words.len(),
    decreases words.len(),
{
    if words.len() > 0 {
        let init = words.drop_last();
        assert forall|i: int| 0 <= i < init.len() implies is_word(#[trigger] init[i]) by {
            assert(init[i] == words[i]);
        }
        lemma_words_stay(init);
        assert(is_word(words[words.len() - 1]));
        let all = json::text_array(tool_items::trimmed_strings(words))->Array_0;
        let before = json::text_array(tool_items::trimmed_strings(init))->Array_0;
        assert(all =~= before.push(words.last()));
        assert(all =~= words);
    } else {
        assert(json::text_array(tool_items::trimmed_strings(words))->Array_0 =~= words);
    }
}

/// The item of a command shows where it ran: the directory of its input, in the first of three
/// spellings that is a text, without white space around it.
pub proof fn law_call_shows_its_directory(
    event: JsonView,
    s: StateView,
    diffs: DiffsView,
    part: JsonView,
    tool: Seq<char>,
    state: JsonView,
    status: Seq<char>,
)
    requires
        tells_of_call(event, part, tool, state, status),
        runs_commands(tool),
        status == "completed"@ || status == "error"@ || status == "pending"@ || status == "running"@,
    ensures
        ({
            let m = event_translator::sse_event(event, s, diffs).1[0];
            let shown = reading::item_field(m, "cwd"@);
            let input = state.get("input"@);
            let place = match reading::within(input, "workdir"@) {
                Some(JsonView::Text(x)) => Some(x),
                _ => match reading::within(input, "cwd"@) {
                    Some(JsonView::Text(x)) => Some(x),
                    _ => match reading::within(input, "path"@) {
                        Some(JsonView::Text(x)) => Some(x),
                        _ => None,
                    },
                },
            };
            match place {
                Some(x) => if text::trim_of(x).len() > 0 {
                    shown == reading::found(text::trim_of(x))
                } else {
                    shown is None
                },
                None => shown is None,
            }
        }),
{
    let (item_id, thread, turn) = lemma_call_messages(event, s, diffs, part, tool, state, status);
    lemma_tool_words();
    lemma_item_words();
    event_laws::lemma_item_messages_read();
    let input = state.get("input"@);
    let output = Some(text::text_or(state.get_str("output"@), ""@));
    lemma_item_command(item_id, tool, "in_progress"@, input, None, diffs);
    lemma_item_command(item_id, tool, "completed"@, input, output, diffs);
    lemma_item_command(item_id, tool, "failed"@, input, output, diffs);
}

proof fn lemma_item_changes(
    item_id: Seq<char>,
    title: Seq<char>,
    status: Seq<char>,
    input: Option<JsonView>,
    output: Option<Seq<char>>,
    diffs: DiffsView,
)
    ensures
        ({
            let item = tool_items::tool_item(item_id, "fileChange"@, title, status, input, output, None, diffs);
            let changes = tool_items::changes_of(input, diffs);
            if changes.len() > 0 {
                item.get("changes"@) == Some(JsonView::Array(changes))
            } else {
                item.get("changes"@) is None
            }
        }),
{
    broadcast use reading::group_reading;
    lemma_call_names();
    lemma_item_words();
}

/// The item of a change shows what was changed: the changes of a patch, or else the one file that
/// the input names, with its diff, in one of two spellings.
pub proof fn law_call_shows_its_changes(
    event: JsonView,
    s: StateView,
    diffs: DiffsView,
    part: JsonView,
    tool: Seq<char>,
    state: JsonView,
    status: Seq<char>,
    input: JsonView,
)
    requires
        tells_of_call(event, part, tool, state, status),
        changes_files(tool),
        status == "completed"@ || status == "error"@ || status == "pending"@ || status == "running"@,
        state.get("input"@) == Some(input),
    ensures
        ({
            let m = event_translator::sse_event(event, s, diffs).1[0];
            let shown = reading::item_field(m, "changes"@);
            let place = match input.get("filePath"@) {
                Some(JsonView::Text(x)) => text::trim_of(x),
                _ => text::trim_of(reading::string_at(input, "path"@)),
            };
            match diffs.patch_changes {
                Some(changes) => if changes.len() > 0 {
                    shown == Some(JsonView::Array(changes))
                } else {
                    shown is None
                },
                None => if place.len() > 0 {
                    &&& shown matches Some(JsonView::Array(changes)) && changes.len() == 1
                    &&& (shown->0->Array_0)[0].get("path"@) == reading::found(place)
                    &&& (shown->0->Array_0)[0].get("kind"@) == reading::found("modify"@)
                    &&& (shown->0->Array_0)[0].get("diff"@) == (match diffs.edit_diff {
                        Some(d) => reading::found(d),
                        None => None,
                    })
                } else {
                    shown is None
                },
            }
        }),
{
    let (item_id, thread, turn) = lemma_call_messages(event, s, diffs, part, tool, state, status);
    lemma_tool_words();
    lemma_item_words();
    event_laws::lemma_item_messages_read();
    let output = Some(text::text_or(state.get_str("output"@), ""@));
    lemma_item_changes(item_id, tool, "in_progress"@, Some(input), None, diffs);
    lemma_item_changes(item_id, tool, "completed"@, Some(input), output, diffs);
    lemma_item_changes(item_id, tool, "failed"@, Some(input), output, diffs);
    assert(text::trim_of(Seq::<char>::empty()).len() == 0);
    if let Some(path) = tool_items::file_path_of(input) {
        lemma_change_reads(path, diffs.edit_diff);
    }
}

pub proof fn lemma_change_reads(path: Seq<char>, diff: Option<Seq<char>>)
    ensures
        tool_items::plain_change(path, diff).get("path"@) == reading::found(path),
        tool_items::plain_change(path, diff).get("kind"@) == reading::found("modify"@),
        tool_items::plain_change(path, diff).get("diff"@) == (match diff {
            Some(d) => reading::found(d),
            None => None,
        }),
{
    broadcast use reading::group_reading;
    lemma_call_names();
}

/// A call with a status that is not known is not shown, where it runs a command or changes files.
pub proof fn law_unknown_status_is_not_shown(
    event: JsonView,
    s: StateView,
    diffs: DiffsView,
    part: JsonView,
    tool: Seq<char>,
    state: JsonView,
    status: Seq<char>,
)
    requires
        tells_of_call(event, part, tool, state, status),
        runs_commands(tool) || changes_files(tool),
        status != "completed"@ && status != "error"@ && status != "pending"@ && status != "running"@,
    ensures
        event_translator::sse_event(event, s, diffs).1.len() == 0,
{
    let (item_id, thread, turn) = lemma_call_messages(event, s, diffs, part, tool, state, status);
    lemma_tool_words();
    lemma_item_words();
}

// ---------------------------------------------------------------------------
// Tasks, todo lists and explorations
// ---------------------------------------------------------------------------

pub proof fn lemma_task_names()
    ensures
        "agentStatus"@.len() == 11,
        "agentStatus"@[0] == 'a',
        "completed"@.len() == 9,
        "description"@.len() == 11,
        "description"@[0] == 'd',
        "failed"@.len() == 6,
        "failed"@[0] == 'f',
        "id"@.len() == 2,
        "in_progress"@.len() == 11,
        "in_progress"@[0] == 'i',
        "prompt"@.len() == 6,
        "prompt"@[0] == 'p',
        "running"@.len() == 7,
        "running"@[0] == 'r',
        "senderThreadId"@.len() == 14,
        "status"@.len() == 6,
        "status"@[0] == 's',
        "subagent_type"@.len() == 13,
        "tool"@.len() == 4,
        "tool"@[1] == 'o',
        "type"@.len() == 4,
        "type"@[1] == 'y',
        "unknown"@.len() == 7,
        "unknown"@[0] == 'u',
{
    reveal_strlit("agentStatus");
    reveal_strlit("completed");
    reveal_strlit("description");
    reveal_strlit("failed");
    reveal_strlit("id");
    reveal_strlit("in_progress");
    reveal_strlit("prompt");
    reveal_strlit("running");
    reveal_strlit("senderThreadId");
    reveal_strlit("status");
    reveal_strlit("subagent_type");
    reveal_strlit("tool");
    reveal_strlit("type");
    reveal_strlit("unknown");
}

proof fn lemma_task_item(
    item_id: Seq<char>,
    status: Seq<char>,
    input: Option<JsonView>,
    thread: Seq<char>,
)
    ensures
        ({
            let item = tool_items::task_item(item_id, status, input, thread);
            let prompt = tool_items::task_prompt_of(input);
            let agents = tool_items::task_agent_status_map_of(status, input);
            &&& item.get("id"@) == reading::found(item_id)
            &&& item.get("type"@) == reading::found("collabToolCall"@)
            &&& item.get("tool"@) == reading::found("task"@)
            &&& item.get("status"@) == reading::found(status)
            &&& item.get("senderThreadId"@) == reading::found(thread)
            &&& item.get("agentStatus"@) == agents
            &&& prompt.len() > 0 ==> item.get("prompt"@) == reading::found(prompt)
            &&& prompt.len() == 0 ==> item.get("prompt"@) is None
        }),
{
    broadcast use reading::group_reading;
    lemma_task_names();
}

/// A task that is given to another agent is shown by one message: with its status, the thread that
/// gives it, what it is about, and the status of the agent that has it.
pub proof fn law_task_is_shown(
    event: JsonView,
    s: StateView,
    diffs: DiffsView,
    part: JsonView,
    state: JsonView,
    status: Seq<char>,
)
    requires
        tells_of_call(event, part, "task"@, state, status),
    ensures
        ({
            let (after, messages) = event_translator::sse_event(event, s, diffs);
            let m = messages[0];
            let input = state.get("input"@);
            let (method, shown, agent_status) = if status == "completed"@ {
                ("item/completed"@, "completed"@, "completed"@)
            } else if status == "error"@ {
                ("item/completed"@, "failed"@, "failed"@)
            } else {
                ("item/started"@, "in_progress"@, "running"@)
            };
            let description = text::trim_of(string_within(input, "description"@));
            let prompt = text::trim_of(string_within(input, "prompt"@));
            let agent = text::trim_of(string_within(input, "subagent_type"@));
            &&& messages.len() == 1
            &&& shows_item(m, method, "collabToolCall"@, shown)
            &&& reading::item_field(m, "tool"@) == reading::found("task"@)
            &&& reading::item_field(m, "senderThreadId"@) == reading::found(after.session_id)
            &&& description.len() > 0 ==> reading::item_field(m, "prompt"@) == reading::found(description)
            &&& description.len() == 0 && prompt.len() > 0 ==> reading::item_field(m, "prompt"@) == reading::found(
                prompt,
            )
            &&& description.len() == 0 && prompt.len() == 0 ==> reading::item_field(m, "prompt"@) is None
            &&& agent.len() > 0 ==> reading::within(
                reading::within(reading::item_field(m, "agentStatus"@), agent),
                "status"@,
            ) == reading::found(agent_status)
            &&& agent.len() == 0 ==> reading::item_field(m, "agentStatus"@) is None
        }),
{
    let (item_id, thread, turn) = lemma_call_messages(event, s, diffs, part, "task"@, state, status);
    lemma_tool_words();
    lemma_item_words();
    lemma_task_names();
    event_laws::lemma_item_messages_read();
    let input = state.get("input"@);
    let shown = event_translator::task_item_status(status);
    lemma_task_item(item_id, shown, input, thread);
    assert(text::trim_of(Seq::<char>::empty()).len() == 0);
    if let Some(agents) = tool_items::task_agent_status_map_of(shown, input) {
        lemma_agent_status(text::trim_of(string_within(input, "subagent_type"@)), shown);
    }
}

/// The text under a name of a value that may be missing; empty where none stands there.
pub open spec fn string_within(o: Option<JsonView>, name: Seq<char>) -> Seq<char> {
    match reading::within(o, name) {
        Some(JsonView::Text(s)) => s,
        _ => Seq::empty(),
    }
}

pub proof fn lemma_agent_status(agent: Seq<char>, shown: Seq<char>)
    ensures
        reading::within(
            json::obj().and(
                agent,
                json::obj().and("status"@, JsonView::Text(tool_items::task_agent_status_of(shown))),
            ).get(agent),
            "status"@,
        ) == reading::found(tool_items::task_agent_status_of(shown)),
{
    broadcast use reading::group_reading;
}

proof fn lemma_list_names()
    ensures
        "completed"@.len() == 9,
        "completed"@[0] == 'c',
        "id"@.len() == 2,
        "metadata"@.len() == 8,
        "pending"@.len() == 7,
        "status"@.len() == 6,
        "todos"@.len() == 5,
        "todowrite"@.len() == 9,
        "todowrite"@[0] == 't',
        "type"@.len() == 4,
{
    reveal_strlit("completed");
    reveal_strlit("id");
    reveal_strlit("metadata");
    reveal_strlit("pending");
    reveal_strlit("status");
    reveal_strlit("todos");
    reveal_strlit("todowrite");
    reveal_strlit("type");
}

/// A call that sets the todo list is shown with the todos, those of its result before those of its
/// input, and the plan of the turn follows.
pub proof fn law_todo_call_is_shown(
    event: JsonView,
    s: StateView,
    diffs: DiffsView,
    part: JsonView,
    state: JsonView,
    status: Seq<char>,
)
    requires
        tells_of_call(event, part, "todowrite"@, state, status),
    ensures
        ({
            let (after, messages) = event_translator::sse_event(event, s, diffs);
            let live = status == "pending"@ || status == "running"@;
            let listed = match reading::within(state.get("metadata"@), "todos"@) {
                Some(JsonView::Array(items)) => items,
                _ => match reading::within(state.get("input"@), "todos"@) {
                    Some(JsonView::Array(items)) => items,
                    _ => Seq::empty(),
                },
            };
            let todos = tool_items::todo_items(listed);
            &&& messages.len() == 2
            &&& live ==> shows_item(messages[0], "item/started"@, "todowrite"@, "pending"@)
            &&& !live ==> shows_item(messages[0], "item/completed"@, "todowrite"@, "completed"@)
            &&& reading::item_field(messages[0], "todos"@) == Some(JsonView::Array(todos))
            &&& reading::has_method(messages[1], "turn/plan/updated"@)
            &&& reading::param(messages[1], "threadId"@) == reading::found(after.session_id)
            &&& reading::param(messages[1], "plan"@) == Some(JsonView::Array(tool_items::plan_steps(todos)))
        }),
{
    let (item_id, thread, turn) = lemma_call_messages(event, s, diffs, part, "todowrite"@, state, status);
    lemma_tool_words();
    lemma_item_words();
    event_laws::lemma_item_messages_read();
    let todos = tool_items::todo_list_of(state.get("input"@), state);
    event_laws::lemma_plan_reads(thread, turn, todos);
    reveal_with_fuel(tool_items::todo_items, 1);
    assert(tool_items::todo_items(Seq::empty()) =~= Seq::<JsonView>::empty());
    assert forall|shown: Seq<char>| {
        let item = #[trigger] todo_call_item(item_id, shown, todos);
        &&& item.get("type"@) == reading::found("todowrite"@)
        &&& item.get("status"@) == reading::found(shown)
        &&& item.get("todos"@) == Some(todos)
    } by {
        broadcast use reading::group_reading;
        lemma_list_names();
    }
    let live = status == "pending"@ || status == "running"@;
    let shown = if live {
        "pending"@
    } else {
        "completed"@
    };
    let item = todo_call_item(item_id, shown, todos);
    let method = if live {
        "item/started"@
    } else {
        "item/completed"@
    };
    assert(event_translator::sse_event(event, s, diffs).1 == Seq::empty().push(
        event_translator::item_message(method, thread, item),
    ).push(tool_items::plan_event(thread, turn, todos)));
}

spec fn todo_call_item(item_id: Seq<char>, shown: Seq<char>, todos: JsonView) -> JsonView {
    json::obj().and("id"@, JsonView::Text(item_id)).and("type"@, JsonView::Text("todowrite"@)).and(
        "status"@,
        JsonView::Text(shown),
    ).and("todos"@, todos)
}

proof fn lemma_explore_names()
    ensures
        ""@.len() == 0,
        " in "@.len() == 4,
        " in "@[0] == ' ',
        "."@.len() == 1,
        "detail"@.len() == 6,
        "detail"@[0] == 'd',
        "entries"@.len() == 7,
        "entries"@[0] == 'e',
        "entries"@[1] == 'n',
        "explore"@.len() == 7,
        "explore"@[0] == 'e',
        "explore"@[1] == 'x',
        "explored"@.len() == 8,
        "explored"@[0] == 'e',
        "exploring"@.len() == 9,
        "file"@.len() == 4,
        "file"@[0] == 'f',
        "filePath"@.len() == 8,
        "filePath"@[0] == 'f',
        "id"@.len() == 2,
        "kind"@.len() == 4,
        "kind"@[0] == 'k',
        "label"@.len() == 5,
        "label"@[0] == 'l',
        "list"@.len() == 4,
        "list"@[0] == 'l',
        "path"@.len() == 4,
        "path"@[0] == 'p',
        "pattern"@.len() == 7,
        "pattern"@[0] == 'p',
        "read"@.len() == 4,
        "read"@[0] == 'r',
        "run"@.len() == 3,
        "search"@.len() == 6,
        "search"@[0] == 's',
        "search"@[1] == 'e',
        "status"@.len() == 6,
        "status"@[0] == 's',
        "status"@[1] == 't',
        "title"@.len() == 5,
        "title"@[0] == 't',
        "type"@.len() == 4,
        "type"@[0] == 't',
{
    reveal_strlit("");
    reveal_strlit(" in ");
    reveal_strlit(".");
    reveal_strlit("detail");
    reveal_strlit("entries");
    reveal_strlit("explore");
    reveal_strlit("explored");
    reveal_strlit("exploring");
    reveal_strlit("file");
    reveal_strlit("filePath");
    reveal_strlit("id");
    reveal_strlit("kind");
    reveal_strlit("label");
    reveal_strlit("list");
    reveal_strlit("path");
    reveal_strlit("pattern");
    reveal_strlit("read");
    reveal_strlit("run");
    reveal_strlit("search");
    reveal_strlit("status");
    reveal_strlit("title");
    reveal_strlit("type");
}

proof fn lemma_explore_reads(tool: Seq<char>, title: Seq<char>, input: Option<JsonView>)
    ensures
        ({
            let entry = tool_items::explore_entry(tool, title, input);
            &&& entry.get("kind"@) == reading::found(tool_items::explore_kind_of(tool))
            &&& entry.get("label"@) == reading::found(tool_items::explore_label(tool, title, input))
            &&& entry.get("detail"@) == (match tool_items::explore_detail(tool, title, input) {
                Some(d) => reading::found(d),
                None => None,
            })
        }),
{
    broadcast use reading::group_reading;
    lemma_explore_names();
}

spec fn explore_call_item(item_id: Seq<char>, shown: Seq<char>, entry: JsonView) -> JsonView {
    json::obj().and("id"@, JsonView::Text(item_id)).and("type"@, JsonView::Text("explore"@)).and(
        "status"@,
        JsonView::Text(shown),
    ).and("entries"@, JsonView::Array(seq![entry]))
}

/// A call that looks around is shown by one message with one entry: what kind it is, and what it
/// looks at, which its title tells, or else its input; a file is named by the end of its path, and
/// the whole path stands beside it.
pub proof fn law_exploration_is_shown(
    event: JsonView,
    s: StateView,
    diffs: DiffsView,
    part: JsonView,
    tool: Seq<char>,
    state: JsonView,
    status: Seq<char>,
)
    requires
        tells_of_call(event, part, tool, state, status),
        explores(tool),
    ensures
        ({
            let messages = event_translator::sse_event(event, s, diffs).1;
            let m = messages[0];
            let live = status == "pending"@ || status == "running"@;
            let over = status == "completed"@ || status == "error"@;
            let title = reading::string_at(state, "title"@);
            let input = state.get("input"@);
            let entry = (reading::item_field(m, "entries"@)->0->Array_0)[0];
            let told = |name: Seq<char>, fallback: Seq<char>|
                if title.len() > 0 {
                    title
                } else {
                    match reading::within(input, name) {
                        Some(JsonView::Text(x)) => x,
                        _ => fallback,
                    }
                };
            &&& messages.len() == 1
            &&& shows_item(
                m,
                if over {
                    "item/completed"@
                } else {
                    "item/started"@
                },
                "explore"@,
                if live {
                    "exploring"@
                } else {
                    "explored"@
                },
            )
            &&& reading::item_field(m, "entries"@) matches Some(JsonView::Array(entries)) && entries.len() == 1
            &&& tool == "read"@ ==> {
                &&& entry.get("kind"@) == reading::found("read"@)
                &&& entry.get("label"@) == reading::found(text::last_segment_of(told("filePath"@, "file"@)))
                &&& entry.get("detail"@) == (if text::last_segment_of(told("filePath"@, "file"@)) == told(
                    "filePath"@,
                    "file"@,
                ) {
                    None
                } else {
                    reading::found(told("filePath"@, "file"@))
                })
            }
            &&& tool == "grep"@ ==> {
                &&& entry.get("kind"@) == reading::found("search"@)
                &&& string_within(input, "path"@).len() == 0 ==> entry.get("label"@) == reading::found(
                    told("pattern"@, "pattern"@),
                )
                &&& string_within(input, "path"@).len() > 0 ==> entry.get("label"@) == reading::found(
                    told("pattern"@, "pattern"@) + " in "@ + string_within(input, "path"@),
                )
            }
            &&& tool == "glob"@ || tool == "list"@ || tool == "ls"@ ==> {
                &&& entry.get("kind"@) == reading::found("list"@)
                &&& entry.get("label"@) == reading::found(told("path"@, "."@))
            }
        }),
{
    let (item_id, thread, turn) = lemma_call_messages(event, s, diffs, part, tool, state, status);
    lemma_tool_words();
    lemma_item_words();
    event_laws::lemma_item_messages_read();
    let title = text::text_or(state.get_str("title"@), ""@);
    assert(""@ =~= Seq::<char>::empty()) by {
        lemma_call_names();
    }
    let entry = tool_items::explore_entry(tool, title, state.get("input"@));
    lemma_explore_reads(tool, title, state.get("input"@));
    assert forall|shown: Seq<char>| {
        let item = #[trigger] explore_call_item(item_id, shown, entry);
        &&& item.get("type"@) == reading::found("explore"@)
        &&& item.get("status"@) == reading::found(shown)
        &&& item.get("entries"@) == Some(JsonView::Array(seq![entry]))
    } by {
        broadcast use reading::group_reading;
        lemma_explore_names();
    }
    let shown = if status == "pending"@ || status == "running"@ {
        "exploring"@
    } else {
        "explored"@
    };
    let method = if status == "completed"@ || status == "error"@ {
        "item/completed"@
    } else {
        "item/started"@
    };
    assert(event_translator::sse_event(event, s, diffs).1 == Seq::empty().push(
        event_translator::item_message(method, thread, explore_call_item(item_id, shown, entry)),
    ));
}

// ---------------------------------------------------------------------------
// Patches
// ---------------------------------------------------------------------------

/// A patch is summed up by its files: how many there are, and the first three of them by what is
/// done to them and by their paths; how many more there are stands at the end.
pub proof fn law_patch_is_summed_up(input: JsonView, diffs: DiffsView, changes: Seq<JsonView>, labels: Seq<Seq<char>>)
    requires
        input.get("patchText"@) matches Some(JsonView::Text(patch)) && text::trim_of(patch).len() > 0,
        diffs.patch_changes == Some(changes),
        changes.len() > 0,
        labels.len() == changes.len(),
        forall|i: int|
            0 <= i < changes.len() ==> #[trigger] labels[i] == (match changes[i].get("kind"@) {
                Some(JsonView::Text(x)) => x,
                _ => "modify"@,
            }) + " "@ + (match changes[i].get("path"@) {
                Some(JsonView::Text(x)) => x,
                _ => "file"@,
            }),
    ensures
        ({
            let summary = tool_items::patch_delta_summary(input, diffs);
            let count = text::decimal(changes.len());
            &&& changes.len() == 1 ==> summary == Some("Applying patch to "@ + count + " file"@ + ""@ + ": "@ + labels[0])
            &&& 1 < changes.len() <= 3 ==> summary == Some(
                "Applying patch to "@ + count + " file"@ + "s"@ + ": "@ + text::joined(labels, ", "@),
            )
            &&& changes.len() > 3 ==> summary == Some(
                "Applying patch to "@ + count + " file"@ + "s"@ + ": "@ + text::joined(labels.take(3), ", "@) + ", +"@
                    + text::decimal((changes.len() - 3) as nat) + " more"@,
            )
        }),
{
    let named: int = if changes.len() < 3 {
        changes.len() as int
    } else {
        3
    };
    assert(changes.take(named).map_values(|c: JsonView| tool_items::change_label(c)) =~= labels.take(named)) by {
        assert forall|i: int| 0 <= i < named implies tool_items::change_label(#[trigger] changes[i]) == labels[i] by {}
    }
    assert(changes.len() <= 3 ==> labels.take(named) =~= labels);
}

} // verus!
