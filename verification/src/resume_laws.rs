//! What a resumed thread shows of its past messages.

use vstd::prelude::*;

use crate::call_laws;
use crate::event_laws;
use crate::event_translator;
use crate::images;
use crate::json;
use crate::json::{JsonView, NumberView};
use crate::reading;
use crate::replay;
use crate::replay::ReplayView;
use crate::replay_laws;
use crate::session_state::StateView;
use crate::sort;
use crate::text;
use crate::tool_items;
use crate::tool_items::DiffsView;

verus! {

proof fn lemma_tool_words()
    ensures
        "apply_patch"@.len() == 11,
        "bash"@.len() == 4,
        "bash"@[0] == 'b',
        "command"@.len() == 7,
        "create"@.len() == 6,
        "edit"@.len() == 4,
        "edit"@[0] == 'e',
        "task"@.len() == 4,
        "task"@[0] == 't',
        "terminal"@.len() == 8,
        "todowrite"@.len() == 9,
        "write"@.len() == 5,
{
    reveal_strlit("apply_patch");
    reveal_strlit("bash");
    reveal_strlit("command");
    reveal_strlit("create");
    reveal_strlit("edit");
    reveal_strlit("task");
    reveal_strlit("terminal");
    reveal_strlit("todowrite");
    reveal_strlit("write");
}

proof fn lemma_item_words()
    ensures
        "collabToolCall"@.len() == 14,
        "commandExecution"@.len() == 16,
        "completed"@.len() == 9,
        "completed"@[0] == 'c',
        "error"@.len() == 5,
        "failed"@.len() == 6,
        "fileChange"@.len() == 10,
        "pending"@.len() == 7,
        "todowrite"@.len() == 9,
        "todowrite"@[0] == 't',
{
    reveal_strlit("collabToolCall");
    reveal_strlit("commandExecution");
    reveal_strlit("completed");
    reveal_strlit("error");
    reveal_strlit("failed");
    reveal_strlit("fileChange");
    reveal_strlit("pending");
    reveal_strlit("todowrite");
}

proof fn lemma_replay_names()
    ensures
        ""@.len() == 0,
        "agentStatus"@.len() == 11,
        "aggregatedOutput"@.len() == 16,
        "changes"@.len() == 7,
        "changes"@[0] == 'c',
        "changes"@[1] == 'h',
        "command"@.len() == 7,
        "command"@[0] == 'c',
        "command"@[1] == 'o',
        "cwd"@.len() == 3,
        "filePath"@.len() == 8,
        "id"@.len() == 2,
        "input"@.len() == 5,
        "input"@[0] == 'i',
        "item"@.len() == 4,
        "item"@[0] == 'i',
        "name"@.len() == 4,
        "name"@[0] == 'n',
        "output"@.len() == 6,
        "output"@[0] == 'o',
        "path"@.len() == 4,
        "path"@[0] == 'p',
        "prompt"@.len() == 6,
        "prompt"@[0] == 'p',
        "senderThreadId"@.len() == 14,
        "state"@.len() == 5,
        "state"@[0] == 's',
        "status"@.len() == 6,
        "status"@[0] == 's',
        "todos"@.len() == 5,
        "todos"@[0] == 't',
        "tool"@.len() == 4,
        "tool"@[0] == 't',
        "tool"@[1] == 'o',
        "type"@.len() == 4,
        "type"@[0] == 't',
        "type"@[1] == 'y',
        "workdir"@.len() == 7,
        "workdir"@[0] == 'w',
{
    reveal_strlit("");
    reveal_strlit("agentStatus");
    reveal_strlit("aggregatedOutput");
    reveal_strlit("changes");
    reveal_strlit("command");
    reveal_strlit("cwd");
    reveal_strlit("filePath");
    reveal_strlit("id");
    reveal_strlit("input");
    reveal_strlit("item");
    reveal_strlit("name");
    reveal_strlit("output");
    reveal_strlit("path");
    reveal_strlit("prompt");
    reveal_strlit("senderThreadId");
    reveal_strlit("state");
    reveal_strlit("status");
    reveal_strlit("todos");
    reveal_strlit("tool");
    reveal_strlit("type");
    reveal_strlit("workdir");
}

// ---------------------------------------------------------------------------
// Tool calls
// ---------------------------------------------------------------------------

/// Whether a part tells of a call of a tool, with its state as an object.
pub open spec fn is_call(part: JsonView, tool: Seq<char>, state: JsonView) -> bool {
    &&& part.get("tool"@) == reading::found(tool) || part.get("tool"@) is None && part.get("name"@)
        == reading::found(tool)
    &&& part.get("state"@) == Some(state)
    &&& state is Object
}

/// The type of the item of a replayed call.
pub open spec fn item_type(tool: Seq<char>) -> Seq<char> {
    if call_laws::changes_files(tool) {
        "fileChange"@
    } else if tool == "task"@ {
        "collabToolCall"@
    } else if tool == "todowrite"@ {
        "todowrite"@
    } else {
        "commandExecution"@
    }
}

proof fn lemma_replayed_item(
    item_id: Seq<char>,
    thread_id: Seq<char>,
    kind: Seq<char>,
    tool: Seq<char>,
    status: Seq<char>,
    input: Option<JsonView>,
    output: Seq<char>,
    diffs: DiffsView,
)
    ensures
        ({
            let item = replay::replay_tool_item(item_id, thread_id, kind, tool, status, input, output, diffs);
            &&& item.get("id"@) == reading::found(item_id)
            &&& item.get("type"@) == reading::found(kind)
            &&& item.get("status"@) == reading::found(status)
            &&& kind == "commandExecution"@ ==> {
                &&& item.get("aggregatedOutput"@) == (if text::trim_of(output).len() > 0 {
                    reading::found(output)
                } else {
                    None
                })
                &&& item.get("command"@) == Some(
                    JsonView::Array(seq![JsonView::Text(replay::replay_command(input, tool))]),
                )
                &&& input is None ==> item.get("cwd"@) is None
                &&& input matches Some(x) ==> item.get("cwd"@) == (match replay::replay_cwd(x) {
                    Some(cwd) => reading::found(cwd),
                    None => None,
                })
            }
            &&& kind == "fileChange"@ ==> {
                &&& item.get("output"@) == (if text::trim_of(output).len() > 0 {
                    reading::found(output)
                } else {
                    None
                })
                &&& item.get("changes"@) == (if replay::replay_changes(input, diffs).len() > 0 {
                    Some(JsonView::Array(replay::replay_changes(input, diffs)))
                } else {
                    None
                })
            }
        }),
{
    broadcast use reading::group_reading;
    lemma_replay_names();
    lemma_item_words();
}

proof fn lemma_replayed_other_item(
    item_id: Seq<char>,
    thread_id: Seq<char>,
    kind: Seq<char>,
    tool: Seq<char>,
    status: Seq<char>,
    input: Option<JsonView>,
    output: Seq<char>,
    diffs: DiffsView,
)
    ensures
        ({
            let item = replay::replay_tool_item(item_id, thread_id, kind, tool, status, input, output, diffs);
            &&& kind == "collabToolCall"@ ==> {
                &&& item.get("tool"@) == reading::found(tool)
                &&& item.get("senderThreadId"@) == reading::found(thread_id)
                &&& item.get("prompt"@) == (if tool_items::task_prompt_of(input).len() > 0 {
                    reading::found(tool_items::task_prompt_of(input))
                } else {
                    None
                })
                &&& item.get("agentStatus"@) == tool_items::task_agent_status_map_of(status, input)
            }
            &&& kind == "todowrite"@ ==> item.get("todos"@) == (match json::as_array_of(
                json::get_of(input, "todos"@),
            ) {
                Some(todos) => Some(JsonView::Array(tool_items::todo_items(todos))),
                None => None,
            })
        }),
{
    broadcast use reading::group_reading;
    lemma_replay_names();
    lemma_item_words();
}

/// A replayed call is shown completed in its thread, under the number of its item: as failed where
/// it ended in an error, as completed in every other case, and with its very output, unless that is
/// nothing but white space.
pub proof fn law_replayed_call_shows_its_outcome(
    part: JsonView,
    tool: Seq<char>,
    state: JsonView,
    item: nat,
    thread_id: Seq<char>,
    diffs: DiffsView,
)
    requires
        is_call(part, tool, state),
    ensures
        ({
            let m = replay::tool_part_message(part, item, thread_id, diffs);
            let output = reading::string_at(state, "output"@);
            let shown = if text::trim_of(output).len() > 0 {
                reading::found(output)
            } else {
                None
            };
            &&& reading::has_method(m, "item/completed"@)
            &&& reading::param(m, "threadId"@) == reading::found(thread_id)
            &&& reading::item_field(m, "id"@) == reading::found("replay_item_"@ + text::decimal(item))
            &&& reading::item_field(m, "type"@) == reading::found(item_type(tool))
            &&& state.get("status"@) == reading::found("error"@) ==> reading::item_field(m, "status"@)
                == reading::found("failed"@)
            &&& state.get("status"@) != reading::found("error"@) ==> reading::item_field(m, "status"@)
                == reading::found("completed"@)
            &&& item_type(tool) == "commandExecution"@ ==> reading::item_field(m, "aggregatedOutput"@) == shown
            &&& item_type(tool) == "fileChange"@ ==> reading::item_field(m, "output"@) == shown
        }),
{
    lemma_tool_words();
    lemma_item_words();
    event_laws::lemma_item_messages_read();
    assert(""@ =~= Seq::<char>::empty()) by {
        lemma_replay_names();
    }
    let (name, status, input, output) = replay::tool_call(part);
    let shown = if status == "error"@ {
        "failed"@
    } else {
        "completed"@
    };
    lemma_replayed_item(
        replay::replay_item_id(item),
        thread_id,
        replay::replay_item_type_of(name),
        name,
        shown,
        input,
        output,
        diffs,
    );
}

/// A call of a command, or one that changes files, that has ended is shown by a replay as it was
/// shown live: with the same type, the same status and the same output.
pub proof fn law_replay_shows_calls_as_they_were(
    event: JsonView,
    s: StateView,
    diffs: DiffsView,
    part: JsonView,
    tool: Seq<char>,
    state: JsonView,
    status: Seq<char>,
    item: nat,
    thread_id: Seq<char>,
)
    requires
        call_laws::tells_of_call(event, part, tool, state, status),
        call_laws::runs_commands(tool) || call_laws::changes_files(tool),
        status == "completed"@ || status == "error"@,
        state is Object,
    ensures
        ({
            let live = event_translator::sse_event(event, s, diffs).1[0];
            let replayed = replay::tool_part_message(part, item, thread_id, diffs);
            &&& reading::item_field(replayed, "type"@) == reading::item_field(live, "type"@)
            &&& reading::item_field(replayed, "status"@) == reading::item_field(live, "status"@)
            &&& call_laws::runs_commands(tool) ==> reading::item_field(replayed, "aggregatedOutput"@)
                == reading::item_field(live, "aggregatedOutput"@)
            &&& call_laws::changes_files(tool) ==> reading::item_field(replayed, "output"@) == reading::item_field(
                live,
                "output"@,
            )
        }),
{
    lemma_tool_words();
    lemma_item_words();
    call_laws::law_ended_call_shows_its_output(event, s, diffs, part, tool, state, status);
    law_replayed_call_shows_its_outcome(part, tool, state, item, thread_id, diffs);
    assert(text::trim_of(Seq::<char>::empty()).len() == 0);
}

/// A call whose state is a word has that word as its status, and its output beside it.
pub proof fn law_replayed_call_with_a_word_as_state(
    part: JsonView,
    tool: Seq<char>,
    status: Seq<char>,
    item: nat,
    thread_id: Seq<char>,
    diffs: DiffsView,
)
    requires
        part.get("tool"@) == reading::found(tool),
        part.get("state"@) == reading::found(status),
        call_laws::runs_commands(tool),
    ensures
        ({
            let m = replay::tool_part_message(part, item, thread_id, diffs);
            let output = reading::string_at(part, "output"@);
            &&& reading::item_field(m, "status"@) == reading::found(
                if status == "error"@ {
                    "failed"@
                } else {
                    "completed"@
                },
            )
            &&& reading::item_field(m, "aggregatedOutput"@) == (if text::trim_of(output).len() > 0 {
                reading::found(output)
            } else {
                None
            })
            &&& reading::item_field(m, "command"@) == Some(JsonView::Array(seq![JsonView::Text(tool)]))
        }),
{
    lemma_tool_words();
    lemma_item_words();
    event_laws::lemma_item_messages_read();
    assert(""@ =~= Seq::<char>::empty()) by {
        lemma_replay_names();
    }
    let shown = if status == "error"@ {
        "failed"@
    } else {
        "completed"@
    };
    let output = text::text_or(part.get_str("output"@), ""@);
    lemma_replayed_item(
        replay::replay_item_id(item),
        thread_id,
        "commandExecution"@,
        tool,
        shown,
        None,
        output,
        diffs,
    );
}

/// A replayed command is shown as it was given, its words with spaces between them, and with the
/// directory in which it ran.
pub proof fn law_replayed_call_shows_its_command(
    part: JsonView,
    tool: Seq<char>,
    state: JsonView,
    item: nat,
    thread_id: Seq<char>,
    diffs: DiffsView,
)
    requires
        is_call(part, tool, state),
        item_type(tool) == "commandExecution"@,
    ensures
        ({
            let m = replay::tool_part_message(part, item, thread_id, diffs);
            let input = state.get("input"@);
            let shown = reading::item_field(m, "command"@);
            let workdir = call_laws::string_within(input, "workdir"@);
            let cwd = call_laws::string_within(input, "cwd"@);
            let path = call_laws::string_within(input, "path"@);
            &&& match reading::within(input, "command"@) {
                Some(JsonView::Text(line)) => shown == Some(JsonView::Array(seq![JsonView::Text(line)])),
                Some(JsonView::Array(words)) => shown == Some(
                    JsonView::Array(
                        seq![JsonView::Text(text::joined(event_translator::strings_of(words), " "@))],
                    ),
                ),
                _ => shown == Some(JsonView::Array(seq![JsonView::Text(tool)])),
            }
            &&& reading::item_field(m, "cwd"@) == (if workdir.len() > 0 {
                reading::found(workdir)
            } else if cwd.len() > 0 {
                reading::found(cwd)
            } else if path.len() > 0 {
                reading::found(path)
            } else {
                None
            })
        }),
{
    lemma_tool_words();
    lemma_item_words();
    event_laws::lemma_item_messages_read();
    let (name, status, input, output) = replay::tool_call(part);
    let shown = if status == "error"@ {
        "failed"@
    } else {
        "completed"@
    };
    lemma_replayed_item(
        replay::replay_item_id(item),
        thread_id,
        replay::replay_item_type_of(name),
        name,
        shown,
        input,
        output,
        diffs,
    );
}

/// A replayed change shows what was changed: the changes of a patch, or else the one file that the
/// input names, with its diff.
pub proof fn law_replayed_call_shows_its_changes(
    part: JsonView,
    tool: Seq<char>,
    state: JsonView,
    input: JsonView,
    item: nat,
    thread_id: Seq<char>,
    diffs: DiffsView,
)
    requires
        is_call(part, tool, state),
        call_laws::changes_files(tool),
        state.get("input"@) == Some(input),
    ensures
        ({
            let m = replay::tool_part_message(part, item, thread_id, diffs);
            let shown = reading::item_field(m, "changes"@);
            let place = if reading::string_at(input, "filePath"@).len() > 0 {
                reading::string_at(input, "filePath"@)
            } else {
                reading::string_at(input, "path"@)
            };
            match diffs.patch_changes {
                Some(changes) => if changes.len() > 0 {
                    shown == Some(JsonView::Array(changes))
                } else {
                    shown is None
                },
                None => if place.len() > 0 {
                    &&& shown matches Some(JsonView::Array(changes)) && changes.len() == 1
                    &&& (shown->0->Array_0)[0].get("path"@) == reading::found(place)
                    &&& (shown->0->Array_0)[0].get("diff"@) == (match diffs.edit_diff {
                        Some(d) => reading::found(d),
                        None => None,
                    })
                } else {
                    shown is None
                },
            }
        }),
{
    lemma_tool_words();
    lemma_item_words();
    event_laws::lemma_item_messages_read();
    let (name, status, found_input, output) = replay::tool_call(part);
    let shown = if status == "error"@ {
        "failed"@
    } else {
        "completed"@
    };
    lemma_replayed_item(
        replay::replay_item_id(item),
        thread_id,
        replay::replay_item_type_of(name),
        name,
        shown,
        found_input,
        output,
        diffs,
    );
    if let Some(path) = replay::replay_file(input) {
        call_laws::lemma_change_reads(path, diffs.edit_diff);
    }
}

/// A replayed task shows the thread that gave it, what it is about and the agent that had it; a
/// replayed todo list shows its todos.
pub proof fn law_replayed_tasks_and_todos_are_shown(
    part: JsonView,
    tool: Seq<char>,
    state: JsonView,
    item: nat,
    thread_id: Seq<char>,
    diffs: DiffsView,
)
    requires
        is_call(part, tool, state),
        tool == "task"@ || tool == "todowrite"@,
    ensures
        ({
            let m = replay::tool_part_message(part, item, thread_id, diffs);
            let input = state.get("input"@);
            let description = text::trim_of(call_laws::string_within(input, "description"@));
            let prompt = text::trim_of(call_laws::string_within(input, "prompt"@));
            let agent = text::trim_of(call_laws::string_within(input, "subagent_type"@));
            &&& tool == "task"@ ==> {
                &&& reading::item_field(m, "tool"@) == reading::found("task"@)
                &&& reading::item_field(m, "senderThreadId"@) == reading::found(thread_id)
                &&& description.len() > 0 ==> reading::item_field(m, "prompt"@) == reading::found(description)
                &&& description.len() == 0 && prompt.len() > 0 ==> reading::item_field(m, "prompt"@)
                    == reading::found(prompt)
                &&& agent.len() > 0 ==> reading::within(
                    reading::within(reading::item_field(m, "agentStatus"@), agent),
                    "status"@,
                ) == reading::item_field(m, "status"@)
                &&& agent.len() == 0 ==> reading::item_field(m, "agentStatus"@) is None
            }
            &&& tool == "todowrite"@ ==> match reading::within(input, "todos"@) {
                Some(JsonView::Array(todos)) => reading::item_field(m, "todos"@) == Some(
                    JsonView::Array(tool_items::todo_items(todos)),
                ),
                _ => reading::item_field(m, "todos"@) is None,
            }
        }),
{
    lemma_tool_words();
    lemma_item_words();
    event_laws::lemma_item_messages_read();
    assert(text::trim_of(Seq::<char>::empty()).len() == 0);
    let (name, status, input, output) = replay::tool_call(part);
    let shown = if status == "error"@ {
        "failed"@
    } else {
        "completed"@
    };
    let id = replay::replay_item_id(item);
    let kind = replay::replay_item_type_of(name);
    lemma_replayed_item(id, thread_id, kind, name, shown, input, output, diffs);
    lemma_replayed_other_item(id, thread_id, kind, name, shown, input, output, diffs);
    let agent = text::trim_of(call_laws::string_within(input, "subagent_type"@));
    call_laws::lemma_agent_status(agent, shown);
    assert(tool_items::task_agent_status_of(shown) == shown) by {
        call_laws::lemma_task_names();
    }
}

// ---------------------------------------------------------------------------
// Messages
// ---------------------------------------------------------------------------

/// Messages are replayed one after the other: to replay two lists is to replay the second behind
/// the first.
pub proof fn law_replay_goes_on(
    v: ReplayView,
    a: Seq<JsonView>,
    b: Seq<JsonView>,
    thread_id: Seq<char>,
    stored: Map<Seq<char>, Seq<char>>,
    diffs: Seq<DiffsView>,
)
    ensures
        replay::messages_replayed(v, a + b, thread_id, stored, diffs) == replay::messages_replayed(
            replay::messages_replayed(v, a, thread_id, stored, diffs),
            b,
            thread_id,
            stored,
            diffs,
        ),
        replay::messages_replayed(v, Seq::empty(), thread_id, stored, diffs) == v,
    decreases b.len(),
{
    if b.len() == 0 {
        assert(a + b =~= a);
    } else {
        law_replay_goes_on(v, a, b.drop_last(), thread_id, stored, diffs);
        assert((a + b).drop_last() =~= a + b.drop_last());
        assert((a + b).last() == b.last());
    }
}

/// What a message shows is taken part by part, in their order.
pub proof fn law_contents_keep_their_order(a: Seq<JsonView>, b: Seq<JsonView>, stored: Map<Seq<char>, Seq<char>>)
    ensures
        replay::contents(a + b, stored) == replay::contents(a, stored) + replay::contents(b, stored),
        replay::contents(Seq::empty(), stored).len() == 0,
    decreases b.len(),
{
    if b.len() == 0 {
        assert(a + b =~= a);
        assert(replay::contents(a, stored) + replay::contents(b, stored) =~= replay::contents(a, stored));
    } else {
        let init = b.drop_last();
        law_contents_keep_their_order(a, init, stored);
        assert((a + b).drop_last() =~= a + init);
        assert((a + b).last() == b.last());
        assert(replay::contents(a + b, stored) =~= replay::contents(a, stored) + replay::contents(b, stored));
    }
}

/// The texts of a message are taken part by part, in their order.
pub proof fn law_fragments_keep_their_order(a: Seq<JsonView>, b: Seq<JsonView>)
    ensures
        replay::fragments(a + b) == replay::fragments(a) + replay::fragments(b),
        replay::fragments(Seq::empty()).len() == 0,
    decreases b.len(),
{
    if b.len() == 0 {
        assert(a + b =~= a);
        assert(replay::fragments(a) + replay::fragments(b) =~= replay::fragments(a));
    } else {
        let init = b.drop_last();
        law_fragments_keep_their_order(a, init);
        assert((a + b).drop_last() =~= a + init);
        assert((a + b).last() == b.last());
        assert(replay::fragments(a + b) =~= replay::fragments(a) + replay::fragments(b));
    }
}

/// The calls of a message are taken part by part, in their order.
pub proof fn law_calls_keep_their_order(a: Seq<JsonView>, b: Seq<JsonView>)
    ensures
        replay::tool_parts(a + b) == replay::tool_parts(a) + replay::tool_parts(b),
        replay::tool_parts(Seq::empty()).len() == 0,
    decreases b.len(),
{
    if b.len() == 0 {
        assert(a + b =~= a);
        assert(replay::tool_parts(a) + replay::tool_parts(b) =~= replay::tool_parts(a));
    } else {
        let init = b.drop_last();
        law_calls_keep_their_order(a, init);
        assert((a + b).drop_last() =~= a + init);
        assert((a + b).last() == b.last());
        assert(replay::tool_parts(a + b) =~= replay::tool_parts(a) + replay::tool_parts(b));
    }
}

/// The addresses of files are taken part by part, in their order.
pub proof fn law_addresses_keep_their_order(a: Seq<JsonView>, b: Seq<JsonView>)
    ensures
        replay::file_urls(a + b) == replay::file_urls(a) + replay::file_urls(b),
        replay::file_urls(Seq::empty()).len() == 0,
    decreases b.len(),
{
    if b.len() == 0 {
        assert(a + b =~= a);
        assert(replay::file_urls(a) + replay::file_urls(b) =~= replay::file_urls(a));
    } else {
        let init = b.drop_last();
        law_addresses_keep_their_order(a, init);
        assert((a + b).drop_last() =~= a + init);
        assert((a + b).last() == b.last());
        assert(replay::file_urls(a + b) =~= replay::file_urls(a) + replay::file_urls(b));
    }
}

proof fn lemma_part_names()
    ensures
        ""@.len() == 0,
        "file"@.len() == 4,
        "file"@[0] == 'f',
        "image"@.len() == 5,
        "image"@[0] == 'i',
        "text"@.len() == 4,
        "text"@[0] == 't',
        "text"@[1] == 'e',
        "tool"@.len() == 4,
        "tool"@[0] == 't',
        "tool"@[1] == 'o',
        "type"@.len() == 4,
        "type"@[0] == 't',
        "type"@[1] == 'y',
        "url"@.len() == 3,
        "value"@.len() == 5,
        "value"@[0] == 'v',
{
    reveal_strlit("");
    reveal_strlit("file");
    reveal_strlit("image");
    reveal_strlit("text");
    reveal_strlit("tool");
    reveal_strlit("type");
    reveal_strlit("url");
    reveal_strlit("value");
}

/// A text of a message is shown as it is, a file by its address or by the path of the file that
/// keeps it, and a call as a call; empty texts and other parts are not shown.
pub proof fn law_part_of_a_message_is_shown(part: JsonView, stored: Map<Seq<char>, Seq<char>>, kind: Seq<char>)
    requires
        part.get("type"@) == reading::found(kind),
    ensures
        ({
            let shown = replay::contents(seq![part], stored);
            let s = reading::string_at(part, "text"@);
            let is_text = kind == "text"@ && s.len() > 0;
            let is_file = kind == "file"@ && (part.get("url"@) matches Some(JsonView::Text(_)));
            let url = reading::string_at(part, "url"@);
            &&& is_text ==> shown.len() == 1 && shown[0].get("type"@) == reading::found("text"@) && shown[0].get(
                "text"@,
            ) == reading::found(s)
            &&& is_file ==> shown.len() == 1 && shown[0].get("type"@) == reading::found("image"@) && shown[0].get(
                "value"@,
            ) == reading::found(images::image_value(url, stored))
            &&& !is_text && !is_file ==> shown.len() == 0
            &&& replay::fragments(seq![part]) == (if is_text {
                seq![s]
            } else {
                Seq::empty()
            })
            &&& replay::tool_parts(seq![part]) == (if kind == "tool"@ {
                seq![part]
            } else {
                Seq::empty()
            })
            &&& replay::file_urls(seq![part]) == (if is_file {
                seq![url]
            } else {
                Seq::empty()
            })
        }),
{
    broadcast use reading::group_reading;
    lemma_part_names();
    reveal_with_fuel(replay::contents, 2);
    reveal_with_fuel(replay::fragments, 2);
    reveal_with_fuel(replay::tool_parts, 2);
    reveal_with_fuel(replay::file_urls, 2);
    assert(seq![part].drop_last() =~= Seq::<JsonView>::empty());
    assert(Seq::<JsonView>::empty().push(part) =~= seq![part]);
    let s = reading::string_at(part, "text"@);
    let url = reading::string_at(part, "url"@);
    assert(Seq::<Seq<char>>::empty().push(s) =~= seq![s]);
    assert(Seq::<Seq<char>>::empty().push(url) =~= seq![url]);
}

proof fn lemma_tools_in_order(v: ReplayView, tools: Seq<JsonView>, thread_id: Seq<char>, diffs: Seq<DiffsView>)
    ensures
        ({
            let after = replay::tools_replayed(v, tools, thread_id, diffs);
            &&& after.state == v.state
            &&& after.items == v.items + tools.len()
            &&& after.tools == v.tools + tools.len()
            &&& after.events.len() == v.events.len() + tools.len()
            &&& after.events.take(v.events.len() as int) == v.events
            &&& forall|i: int|
                0 <= i < tools.len() ==> #[trigger] after.events[v.events.len() + i] == replay::tool_part_message(
                    tools[i],
                    (v.items + i + 1) as nat,
                    thread_id,
                    replay::diffs_at(diffs, v.tools + i),
                )
        }),
    decreases tools.len(),
{
    if tools.len() > 0 {
        let init = tools.drop_last();
        lemma_tools_in_order(v, init, thread_id, diffs);
        let before = replay::tools_replayed(v, init, thread_id, diffs);
        let after = replay::tools_replayed(v, tools, thread_id, diffs);
        assert(after.events.take(v.events.len() as int) =~= before.events.take(v.events.len() as int));
        assert forall|i: int| 0 <= i < tools.len() implies #[trigger] after.events[v.events.len() + i]
            == replay::tool_part_message(
            tools[i],
            (v.items + i + 1) as nat,
            thread_id,
            replay::diffs_at(diffs, v.tools + i),
        ) by {
            if i < init.len() {
                assert(after.events[v.events.len() + i] == before.events[v.events.len() + i]);
                assert(init[i] == tools[i]);
            }
        }
    } else {
        assert(v.events.take(v.events.len() as int) =~= v.events);
    }
}

proof fn lemma_message_names()
    ensures
        "agentMessage"@.len() == 12,
        "assistant"@.len() == 9,
        "content"@.len() == 7,
        "id"@.len() == 2,
        "info"@.len() == 4,
        "info"@[0] == 'i',
        "parts"@.len() == 5,
        "role"@.len() == 4,
        "role"@[0] == 'r',
        "text"@.len() == 4,
        "text"@[0] == 't',
        "text"@[1] == 'e',
        "type"@.len() == 4,
        "type"@[0] == 't',
        "type"@[1] == 'y',
        "user"@.len() == 4,
        "user"@[0] == 'u',
        "userMessage"@.len() == 11,
{
    reveal_strlit("agentMessage");
    reveal_strlit("assistant");
    reveal_strlit("content");
    reveal_strlit("id");
    reveal_strlit("info");
    reveal_strlit("parts");
    reveal_strlit("role");
    reveal_strlit("text");
    reveal_strlit("type");
    reveal_strlit("user");
    reveal_strlit("userMessage");
}

/// One more message adds what it shows behind what was shown: first what it says, as a message of
/// the user or of the agent, where it says something, and then its calls, one by one, numbered on
/// and each with the diffs that were made for it.
pub proof fn law_message_is_replayed(
    v: ReplayView,
    entry: JsonView,
    parts: Seq<JsonView>,
    thread_id: Seq<char>,
    stored: Map<Seq<char>, Seq<char>>,
    diffs: Seq<DiffsView>,
)
    requires
        entry.get("parts"@) == Some(JsonView::Array(parts)),
    ensures
        ({
            let after = replay::messages_replayed(v, seq![entry], thread_id, stored, diffs);
            let content = replay::contents(parts, stored);
            let tools = replay::tool_parts(parts);
            let by_user = reading::within(entry.get("info"@), "role"@) == reading::found("user"@);
            let said: nat = if content.len() > 0 {
                1
            } else {
                0
            };
            let numbered: nat = if content.len() > 0 && !by_user {
                1
            } else {
                0
            };
            let first = v.events.len() + said;
            let m = after.events[v.events.len() as int];
            &&& after.events.len() == v.events.len() + said + tools.len()
            &&& after.events.take(v.events.len() as int) == v.events
            &&& after.items == v.items + numbered + tools.len()
            &&& content.len() > 0 ==> {
                &&& reading::has_method(m, "item/completed"@)
                &&& reading::param(m, "threadId"@) == reading::found(thread_id)
                &&& reading::item_field(m, "content"@) == Some(JsonView::Array(content))
                &&& by_user ==> reading::item_field(m, "type"@) == reading::found("userMessage"@) && (v.state.turn(
                    thread_id,
                ).user_message_item_id matches Some(id) ==> reading::item_field(m, "id"@) == reading::found(id))
                &&& !by_user ==> {
                    &&& reading::item_field(m, "type"@) == reading::found("agentMessage"@)
                    &&& reading::item_field(m, "id"@) == reading::found(
                        "replay_item_"@ + text::decimal(v.items + 1),
                    )
                    &&& reading::item_field(m, "text"@) == reading::found(
                        text::joined(replay::fragments(parts), "\n\n"@),
                    )
                }
            }
            &&& forall|k: int|
                first <= k < after.events.len() ==> #[trigger] after.events[k] == replay::tool_part_message(
                    tools[k - first],
                    (v.items + numbered + k - first + 1) as nat,
                    thread_id,
                    replay::diffs_at(diffs, v.tools + k - first),
                )
        }),
{
    reveal_with_fuel(replay::messages_replayed, 2);
    assert(seq![entry].drop_last() =~= Seq::<JsonView>::empty());
    lemma_message_names();
    let content = replay::contents(parts, stored);
    let c = replay::content_replayed(v, entry, thread_id, stored);
    let tools = replay::tool_parts(parts);
    lemma_tools_in_order(c, tools, thread_id, diffs);
    event_laws::lemma_item_messages_read();
    let after = replay::tools_replayed(c, tools, thread_id, diffs);
    assert(after.events.take(v.events.len() as int) =~= v.events) by {
        assert forall|k: int| 0 <= k < v.events.len() implies after.events[k] == v.events[k] by {
            assert(after.events.take(c.events.len() as int)[k] == c.events[k]);
        }
    }
    assert forall|k: int| c.events.len() <= k < after.events.len() implies #[trigger] after.events[k]
        == replay::tool_part_message(
        tools[k - c.events.len()],
        (c.items + k - c.events.len() + 1) as nat,
        thread_id,
        replay::diffs_at(diffs, c.tools + k - c.events.len()),
    ) by {
        assert(after.events[c.events.len() + (k - c.events.len())] == after.events[k]);
    }
    if content.len() > 0 {
        let k = v.events.len() as int;
        assert(after.events[k] == after.events.take(c.events.len() as int)[k]);
        let (s1, id) = v.state.user_message_item(thread_id);
        lemma_user_item_reads(id, content);
        lemma_agent_item_reads(replay::replay_item_id(v.items + 1), parts, content);
    }
}

proof fn lemma_user_item_reads(id: Seq<char>, content: Seq<JsonView>)
    ensures
        event_translator::user_message_item(id, JsonView::Array(content)).get("id"@) == reading::found(id),
        event_translator::user_message_item(id, JsonView::Array(content)).get("type"@) == reading::found(
            "userMessage"@,
        ),
        event_translator::user_message_item(id, JsonView::Array(content)).get("content"@) == Some(
            JsonView::Array(content),
        ),
{
    broadcast use reading::group_reading;
    lemma_message_names();
}

proof fn lemma_agent_item_reads(id: Seq<char>, parts: Seq<JsonView>, content: Seq<JsonView>)
    ensures
        ({
            let item = replay::agent_message_item(id, parts, content);
            &&& item.get("id"@) == reading::found(id)
            &&& item.get("type"@) == reading::found("agentMessage"@)
            &&& item.get("content"@) == Some(JsonView::Array(content))
            &&& item.get("text"@) == reading::found(text::joined(replay::fragments(parts), "\n\n"@))
        }),
{
    broadcast use reading::group_reading;
    lemma_message_names();
}

proof fn lemma_usage_names()
    ensures
        "assistant"@.len() == 9,
        "info"@.len() == 4,
        "info"@[0] == 'i',
        "message.part.delta"@.len() == 18,
        "message.part.removed"@.len() == 20,
        "message.part.removed"@[13] == 'r',
        "message.part.updated"@.len() == 20,
        "message.part.updated"@[13] == 'u',
        "message.updated"@.len() == 15,
        "properties"@.len() == 10,
        "role"@.len() == 4,
        "role"@[0] == 'r',
        "type"@.len() == 4,
        "type"@[0] == 't',
{
    reveal_strlit("assistant");
    reveal_strlit("info");
    reveal_strlit("message.part.delta");
    reveal_strlit("message.part.removed");
    reveal_strlit("message.part.updated");
    reveal_strlit("message.updated");
    reveal_strlit("properties");
    reveal_strlit("role");
    reveal_strlit("type");
}

/// Behind the messages of a thread stands the token usage of its last message of the agent, as it
/// would be told live; a thread without one has none.
pub proof fn law_replay_ends_with_the_usage(
    s: StateView,
    thread_id: Seq<char>,
    entries: Seq<JsonView>,
    stored: Map<Seq<char>, Seq<char>>,
    diffs: Seq<DiffsView>,
    event: JsonView,
    info: JsonView,
    none: DiffsView,
)
    requires
        entries.len() > 0,
        entries.last().get("info"@) == Some(info),
        info.get("role"@) == reading::found("assistant"@),
        event_laws::is_event(event, "message.updated"@, json::obj().and("info"@, info)),
    ensures
        ({
            let start = ReplayView { state: s.prepare_replay(thread_id), items: 0, tools: 0, events: Seq::empty() };
            let v = replay::messages_replayed(start, entries, thread_id, stored, diffs);
            let (after, usage) = event_translator::sse_event(event, v.state, none);
            replay::thread_replayed(s, thread_id, entries, stored, diffs) == (after, v.events + usage)
        }),
{
    lemma_usage_names();
}

/// A message that is not the agent's does not hide the one of the agent before it.
pub proof fn law_usage_is_that_of_the_agent(entries: Seq<JsonView>, last: JsonView)
    requires
        reading::within(last.get("info"@), "role"@) == reading::found("user"@) || last.get("info"@) is None,
    ensures
        replay::latest_assistant_info(entries.push(last)) == replay::latest_assistant_info(entries),
        replay::latest_assistant_info(Seq::empty()) is None,
{
    assert(entries.push(last).drop_last() =~= entries);
    assert("user"@ != "assistant"@) by {
        lemma_message_names();
    }
}

// ---------------------------------------------------------------------------
// Order and reverts
// ---------------------------------------------------------------------------

proof fn lemma_time_names()
    ensures
        "created"@.len() == 7,
        "created"@[0] == 'c',
        "createdAt"@.len() == 9,
        "createdAt"@[0] == 'c',
        "created_at"@.len() == 10,
        "created_at"@[0] == 'c',
        "time"@.len() == 4,
        "updated"@.len() == 7,
        "updated"@[0] == 'u',
        "updatedAt"@.len() == 9,
        "updatedAt"@[0] == 'u',
        "updated_at"@.len() == 10,
        "updated_at"@[0] == 'u',
{
    reveal_strlit("created");
    reveal_strlit("createdAt");
    reveal_strlit("created_at");
    reveal_strlit("time");
    reveal_strlit("updated");
    reveal_strlit("updatedAt");
    reveal_strlit("updated_at");
}

/// Whether a message tells when it was made, in one of its spellings.
pub open spec fn made_at(message: JsonView, n: u64) -> bool {
    let when = Some(JsonView::Number(NumberView::Unsigned(n)));
    ||| message.get("createdAt"@) == when
    ||| message.get("createdAt"@) is None && message.get("created_at"@) is None && message.get("updatedAt"@) is None
        && message.get("updated_at"@) is None && reading::within(message.get("time"@), "created"@) == when
}

proof fn lemma_key_of_time(message: JsonView, n: u64)
    requires
        made_at(message, n),
    ensures
        replay::message_order_key(message) == Some(text::zero_padded(text::decimal(n as nat), 20)),
{
    lemma_time_names();
}

/// Messages that tell when they were made are replayed from the oldest to the youngest one.
pub proof fn law_older_messages_come_first(messages: Seq<JsonView>, times: Seq<u64>, i: int, j: int)
    requires
        0 <= i < j < messages.len(),
        times.len() == messages.len(),
        forall|k: int| 0 <= k < messages.len() ==> made_at(#[trigger] messages[k], times[k]),
    ensures
        ({
            let order = sort::sorted_order(messages.len(), sort::text_less(replay::order_keys(messages)));
            let row = replay::chronological(messages);
            &&& sort::is_permutation(order, messages.len())
            &&& row.len() == messages.len()
            &&& row[i] == messages[order[i]] && row[j] == messages[order[j]]
            &&& times[order[i]] <= times[order[j]]
        }),
{
    assert forall|k: int| 0 <= k < messages.len() implies replay::message_order_key(#[trigger] messages[k]) == Some(
        text::zero_padded(text::decimal(times[k] as nat), 20),
    ) by {
        lemma_key_of_time(messages[k], times[k]);
    }
    replay_laws::law_replay_is_chronological(messages, i, j);
    let order = sort::sorted_order(messages.len(), sort::text_less(replay::order_keys(messages)));
    lemma_key_of_time(messages[order[i]], times[order[i]]);
    lemma_key_of_time(messages[order[j]], times[order[j]]);
    replay_laws::law_times_sort_as_numbers(times[order[i]], times[order[j]]);
}

proof fn lemma_revert_names()
    ensures
        ""@.len() == 0,
        "id"@.len() == 2,
        "info"@.len() == 4,
        "messageID"@.len() == 9,
        "messageID"@[8] == 'D',
        "messageId"@.len() == 9,
        "messageId"@[8] == 'd',
        "partID"@.len() == 6,
        "partID"@[0] == 'p',
        "partID"@[5] == 'D',
        "partId"@.len() == 6,
        "partId"@[0] == 'p',
        "partId"@[5] == 'd',
        "parts"@.len() == 5,
        "revert"@.len() == 6,
        "revert"@[0] == 'r',
{
    reveal_strlit("");
    reveal_strlit("id");
    reveal_strlit("info");
    reveal_strlit("messageID");
    reveal_strlit("messageId");
    reveal_strlit("partID");
    reveal_strlit("partId");
    reveal_strlit("parts");
    reveal_strlit("revert");
}

/// Whether a message has an identifier.
pub open spec fn has_id(entry: JsonView, id: Seq<char>) -> bool {
    reading::within(entry.get("info"@), "id"@) == reading::found(id)
}

/// A pending revert takes back the message that it names and all behind it, and nothing before it;
/// where it names a part of that message too, the parts before that one stay.
pub proof fn law_revert_takes_back_what_it_names(
    entries: Seq<JsonView>,
    details: JsonView,
    revert: JsonView,
    message_id: Seq<char>,
    at: int,
)
    requires
        details.get("revert"@) == Some(revert),
        revert is Object,
        revert.get("messageID"@) == reading::found(message_id),
        message_id.len() > 0 && text::trim_of(message_id) == message_id,
        0 <= at < entries.len(),
        has_id(entries[at], message_id),
        forall|k: int|
            0 <= k < at ==> (reading::within((#[trigger] entries[k]).get("info"@), "id"@) matches Some(
                JsonView::Text(x),
            ) && text::trim_of(x) != message_id),
    ensures
        ({
            let kept = replay::after_revert(entries, Some(details));
            let part = revert.get("partID"@);
            &&& part is None && revert.get("partId"@) is None ==> kept == entries.take(at)
            &&& part matches Some(JsonView::Text(p)) ==> (text::trim_of(p).len() > 0 ==> {
                &&& kept.len() == at + 1
                &&& kept.take(at) == entries.take(at)
                &&& keeps_parts_before(kept[at], entries[at], text::trim_of(p))
            })
        }),
{
    lemma_revert_names();
    lemma_first_message(entries, message_id, 0, at);
    let kept = replay::after_revert(entries, Some(details));
    if let Some(JsonView::Text(p)) = revert.get("partID"@) {
        if text::trim_of(p).len() > 0 {
            assert(kept.take(at) =~= entries.take(at));
            lemma_cut(entries[at], text::trim_of(p));
        }
    }
}

/// Whether a message has kept the parts before the one of the given name: all of them where there
/// is none.
pub open spec fn keeps_parts_before(kept: JsonView, entry: JsonView, part_id: Seq<char>) -> bool {
    &&& kept.get("info"@) == entry.get("info"@)
    &&& entry.get("parts"@) matches Some(JsonView::Array(parts)) ==> (kept.get("parts"@) matches Some(
        JsonView::Array(left),
    ) && left.len() <= parts.len() && left == parts.take(left.len() as int) && (forall|k: int|
        0 <= k < left.len() ==> !named(#[trigger] left[k], part_id)) && (left.len() < parts.len() ==> named(
        parts[left.len() as int],
        part_id,
    )))
}

/// Whether a part has a name, apart from white space around it.
pub open spec fn named(part: JsonView, part_id: Seq<char>) -> bool {
    text::trim_of(reading::string_at(part, "id"@)) == part_id
}

proof fn lemma_first_message(entries: Seq<JsonView>, message_id: Seq<char>, from: int, at: int)
    requires
        0 <= from <= at < entries.len(),
        text::trim_of(message_id) == message_id,
        has_id(entries[at], message_id),
        forall|k: int|
            0 <= k < at ==> (reading::within((#[trigger] entries[k]).get("info"@), "id"@) matches Some(
                JsonView::Text(x),
            ) && text::trim_of(x) != message_id),
    ensures
        replay::message_from(entries, message_id, from) == Some(at),
    decreases at - from,
{
    if from < at {
        assert(reading::within(entries[from].get("info"@), "id"@) is Some);
        lemma_first_message(entries, message_id, from + 1, at);
    }
}

proof fn lemma_part_from(parts: Seq<JsonView>, part_id: Seq<char>, from: int)
    requires
        0 <= from <= parts.len(),
    ensures
        match replay::part_from(parts, part_id, from) {
            Some(i) => from <= i < parts.len() && named(parts[i], part_id) && forall|k: int|
                from <= k < i ==> !named(#[trigger] parts[k], part_id),
            None => forall|k: int| from <= k < parts.len() ==> !named(#[trigger] parts[k], part_id),
        },
    decreases parts.len() - from,
{
    assert(""@ =~= Seq::<char>::empty()) by {
        lemma_revert_names();
    }
    if from < parts.len() && !named(parts[from], part_id) {
        lemma_part_from(parts, part_id, from + 1);
    }
}

proof fn lemma_cut(entry: JsonView, part_id: Seq<char>)
    ensures
        keeps_parts_before(replay::cut_message(entry, part_id), entry, part_id),
{
    broadcast use reading::group_reading;
    lemma_revert_names();
    if let Some(JsonView::Array(parts)) = entry.get("parts"@) {
        lemma_part_from(parts, part_id, 0);
        assert(parts.take(parts.len() as int) =~= parts);
        assert(entry is Object);
    }
}

/// Without a pending revert every message stays.
pub proof fn law_nothing_is_taken_back_without_a_revert(entries: Seq<JsonView>, details: JsonView)
    requires
        details.get("revert"@) is None,
    ensures
        replay::after_revert(entries, Some(details)) == entries,
        replay::after_revert(entries, None) == entries,
{
}

} // verus!
