//! Items that show a tool call: commands, file changes, explorations, todo lists and tasks.

use vstd::prelude::*;
use vstd::string::*;

use crate::json;
use crate::json::{as_array_in, as_str_in, get_in, none, push_json, Json, JsonView};
use crate::json_text;
use crate::json_text::pretty_json;
use crate::text;
use crate::text::{cat, cat3, decimal_text, join, last_segment, owned, str_eq, str_or, trim, trim_some};

verus! {

/// What the diff generator made of a tool's input: the changes of a patch, and the diff of an edit
/// of the file that the input names.
pub struct FileDiffs {
    pub patch_changes: Option<Vec<Json>>,
    pub edit_diff: Option<String>,
}

/// The mathematical value of the generated diffs.
pub struct DiffsView {
    pub patch_changes: Option<Seq<JsonView>>,
    pub edit_diff: Option<Seq<char>>,
}

impl View for FileDiffs {
    type V = DiffsView;

    open spec fn view(&self) -> DiffsView {
        DiffsView {
            patch_changes: match self.patch_changes {
                Some(changes) => Some(json::json_views(changes@)),
                None => None,
            },
            edit_diff: text::opt_string(self.edit_diff),
        }
    }
}

// ---------------------------------------------------------------------------
// Kinds and statuses
// ---------------------------------------------------------------------------

/// The item type that shows a tool of the given kind.
pub open spec fn item_type_of(kind: Seq<char>) -> Seq<char> {
    if kind == "edit"@ || kind == "write"@ || kind == "create"@ || kind == "apply_patch"@ {
        "fileChange"@
    } else if kind == "bash"@ || kind == "command"@ || kind == "terminal"@ {
        "commandExecution"@
    } else if kind == "read"@ || kind == "grep"@ || kind == "glob"@ || kind == "list"@ || kind == "ls"@ {
        "explore"@
    } else if kind == "todowrite"@ {
        "todowrite"@
    } else {
        "commandExecution"@
    }
}

/// The item type that shows a tool of the given kind.
pub fn tool_kind_to_item_type(kind: &str) -> (r: &'static str)
    ensures
        r@ == item_type_of(kind@),
{
    if str_eq(kind, "edit") || str_eq(kind, "write") || str_eq(kind, "create") || str_eq(kind, "apply_patch") {
        "fileChange"
    } else if str_eq(kind, "bash") || str_eq(kind, "command") || str_eq(kind, "terminal") {
        "commandExecution"
    } else if str_eq(kind, "read") || str_eq(kind, "grep") || str_eq(kind, "glob") || str_eq(kind, "list") || str_eq(
        kind,
        "ls",
    ) {
        "explore"
    } else if str_eq(kind, "todowrite") {
        "todowrite"
    } else {
        "commandExecution"
    }
}

/// The kind of the exploration that a tool makes.
pub open spec fn explore_kind_of(tool_name: Seq<char>) -> Seq<char> {
    if tool_name == "read"@ {
        "read"@
    } else if tool_name == "grep"@ {
        "search"@
    } else if tool_name == "glob"@ || tool_name == "list"@ || tool_name == "ls"@ {
        "list"@
    } else {
        "run"@
    }
}

/// The kind of the exploration that a tool makes.
pub fn tool_to_explore_kind(tool_name: &str) -> (r: &'static str)
    ensures
        r@ == explore_kind_of(tool_name@),
{
    if str_eq(tool_name, "read") {
        "read"
    } else if str_eq(tool_name, "grep") {
        "search"
    } else if str_eq(tool_name, "glob") || str_eq(tool_name, "list") || str_eq(tool_name, "ls") {
        "list"
    } else {
        "run"
    }
}

/// The status of a plan's step for a todo of the given status: a cancelled todo counts as done.
pub open spec fn plan_status_of(status: Seq<char>) -> Seq<char> {
    if status == "completed"@ {
        "completed"@
    } else if status == "in_progress"@ {
        "inProgress"@
    } else if status == "cancelled"@ {
        "completed"@
    } else {
        "pending"@
    }
}

/// The status of a plan's step for a todo of the given status.
pub fn todo_status_to_plan_status(status: &str) -> (r: &'static str)
    ensures
        r@ == plan_status_of(status@),
{
    if str_eq(status, "completed") {
        "completed"
    } else if str_eq(status, "in_progress") {
        "inProgress"
    } else if str_eq(status, "cancelled") {
        "completed"
    } else {
        "pending"
    }
}

// ---------------------------------------------------------------------------
// Todo lists
// ---------------------------------------------------------------------------

/// A todo with its missing fields filled in; nothing where it has no content.
pub open spec fn todo_item(todo: JsonView) -> Option<JsonView> {
    match todo.get_str("content"@) {
        Some(content) => Some(
            json::obj().and("content"@, JsonView::Text(content)).and(
                "status"@,
                JsonView::Text(text::text_or(todo.get_str("status"@), "pending"@)),
            ).and("priority"@, JsonView::Text(text::text_or(todo.get_str("priority"@), "medium"@))),
        ),
        None => None,
    }
}

/// The todos of a list that have content.
pub open spec fn todo_items(todos: Seq<JsonView>) -> Seq<JsonView>
    decreases todos.len(),
{
    if todos.len() == 0 {
        Seq::empty()
    } else {
        match todo_item(todos.last()) {
            Some(item) => todo_items(todos.drop_last()).push(item),
            None => todo_items(todos.drop_last()),
        }
    }
}

/// The todos of a list that have content.
pub fn collect_todos(todos: &Vec<Json>) -> (r: Json)
    ensures
        r@ == JsonView::Array(todo_items(json::json_views(todos@))),
{
    let mut out: Vec<Json> = none();
    let mut i: usize = 0;
    let ghost all = json::json_views(todos@);
    while i < todos.len()
        invariant
            i <= todos@.len(),
            all == json::json_views(todos@),
            json::json_views(out@) == todo_items(all.take(i as int)),
        decreases todos@.len() - i,
    {
        let todo = &todos[i];
        proof {
            assert(all.take(i + 1).drop_last() =~= all.take(i as int));
            assert(all.take(i + 1).last() == todo@);
        }
        if let Some(content) = todo.get_str("content") {
            let status: &str = str_or(todo.get_str("status"), "pending");
            let priority: &str = str_or(todo.get_str("priority"), "medium");
            push_json(
                &mut out,
                Json::obj().and("content", Json::text(content)).and("status", Json::text(status)).and(
                    "priority",
                    Json::text(priority),
                ),
            );
        }
        i = i + 1;
    }
    assert(all.take(all.len() as int) =~= all);
    Json::array(out)
}

/// The todos of a todo tool: those of its metadata, or else those of its input.
pub open spec fn todo_list_of(raw_input: Option<JsonView>, tool_state: JsonView) -> JsonView {
    let from_metadata = json::as_array_of(json::get_of(tool_state.get("metadata"@), "todos"@));
    let from_input = json::as_array_of(json::get_of(raw_input, "todos"@));
    match from_metadata {
        Some(todos) => JsonView::Array(todo_items(todos)),
        None => match from_input {
            Some(todos) => JsonView::Array(todo_items(todos)),
            None => JsonView::Array(Seq::empty()),
        },
    }
}

/// The todos of a todo tool: those of its metadata, or else those of its input.
pub fn build_todo_list(raw_input: Option<&Json>, tool_state: &Json) -> (r: Json)
    ensures
        r@ == todo_list_of(json::opt_json(raw_input), tool_state@),
{
    match as_array_in(get_in(tool_state.get("metadata"), "todos")) {
        Some(todos) => collect_todos(todos),
        None => match as_array_in(get_in(raw_input, "todos")) {
            Some(todos) => collect_todos(todos),
            None => Json::array(none()),
        },
    }
}

/// The step of a plan for a todo; nothing where it has no content.
pub open spec fn plan_step(todo: JsonView) -> Option<JsonView> {
    match todo.get_str("content"@) {
        Some(content) => Some(
            json::obj().and("step"@, JsonView::Text(content)).and(
                "status"@,
                JsonView::Text(plan_status_of(text::text_or(todo.get_str("status"@), "pending"@))),
            ),
        ),
        None => None,
    }
}

/// The steps of a plan for the todos that have content.
pub open spec fn plan_steps(todos: Seq<JsonView>) -> Seq<JsonView>
    decreases todos.len(),
{
    if todos.len() == 0 {
        Seq::empty()
    } else {
        match plan_step(todos.last()) {
            Some(step) => plan_steps(todos.drop_last()).push(step),
            None => plan_steps(todos.drop_last()),
        }
    }
}

/// The steps of a plan for a todo list; none where it is no list.
pub open spec fn steps_of(todos: JsonView) -> Seq<JsonView> {
    match todos.as_array() {
        Some(items) => plan_steps(items),
        None => Seq::empty(),
    }
}

/// The event that gives a turn a plan.
pub open spec fn plan_updated(thread_id: Seq<char>, turn_id: Seq<char>, steps: Seq<JsonView>) -> JsonView {
    json::obj().and("method"@, JsonView::Text("turn/plan/updated"@)).and(
        "params"@,
        json::obj().and("threadId"@, JsonView::Text(thread_id)).and("turnId"@, JsonView::Text(turn_id)).and(
            "explanation"@,
            JsonView::Null,
        ).and("plan"@, JsonView::Array(steps)),
    )
}

/// The event that shows a todo list as the plan of a turn.
pub open spec fn plan_event(thread_id: Seq<char>, turn_id: Seq<char>, todos: JsonView) -> JsonView {
    plan_updated(thread_id, turn_id, steps_of(todos))
}

fn collect_plan_steps(todos: &Vec<Json>) -> (r: Vec<Json>)
    ensures
        json::json_views(r@) == plan_steps(json::json_views(todos@)),
{
    let mut out: Vec<Json> = none();
    let mut i: usize = 0;
    let ghost all = json::json_views(todos@);
    while i < todos.len()
        invariant
            i <= todos@.len(),
            all == json::json_views(todos@),
            json::json_views(out@) == plan_steps(all.take(i as int)),
        decreases todos@.len() - i,
    {
        let todo = &todos[i];
        proof {
            assert(all.take(i + 1).drop_last() =~= all.take(i as int));
            assert(all.take(i + 1).last() == todo@);
        }
        if let Some(content) = todo.get_str("content") {
            let status: &str = str_or(todo.get_str("status"), "pending");
            push_json(
                &mut out,
                Json::obj().and("step", Json::text(content)).and(
                    "status",
                    Json::text(todo_status_to_plan_status(status)),
                ),
            );
        }
        i = i + 1;
    }
    assert(all.take(all.len() as int) =~= all);
    out
}

fn build_plan_updated(thread_id: &str, turn_id: &str, steps: Vec<Json>) -> (r: Json)
    ensures
        r@ == plan_updated(thread_id@, turn_id@, json::json_views(steps@)),
{
    let params = Json::obj().and("threadId", Json::text(thread_id)).and("turnId", Json::text(turn_id)).and(
        "explanation",
        Json::Null,
    ).and("plan", Json::array(steps));
    Json::obj().and("method", Json::text("turn/plan/updated")).and("params", params)
}

/// The event that shows a todo list as the plan of a turn; nothing where there is no todo.
pub open spec fn plan_of_todos(thread_id: Seq<char>, turn_id: Seq<char>, todos: JsonView) -> Option<JsonView> {
    match todos.as_array() {
        Some(items) => if items.len() > 0 {
            Some(plan_event(thread_id, turn_id, todos))
        } else {
            None
        },
        None => None,
    }
}

/// The event that shows a todo list as the plan of a turn; nothing where there is no todo.
pub fn build_plan_from_todos(thread_id: &str, turn_id: &str, todos: &Json) -> (r: Option<Json>)
    ensures
        json::opt_json_owned(r) == plan_of_todos(thread_id@, turn_id@, todos@),
{
    match todos.as_array() {
        Some(items) => if items.len() > 0 {
            Some(build_plan_updated(thread_id, turn_id, collect_plan_steps(items)))
        } else {
            None
        },
        None => None,
    }
}

/// The event that shows a todo list as the plan of a turn. Where there is no todo, it clears the
/// plan.
pub fn build_plan_update(thread_id: &str, turn_id: &str, todos: &Json) -> (r: Json)
    ensures
        r@ == plan_event(thread_id@, turn_id@, todos@),
{
    match build_plan_from_todos(thread_id, turn_id, todos) {
        Some(event) => event,
        None => build_plan_updated(thread_id, turn_id, none()),
    }
}

// ---------------------------------------------------------------------------
// Commands and files
// ---------------------------------------------------------------------------

/// The strings of a list, without the white space around them and without the empty ones.
pub open spec fn trimmed_strings(items: Seq<JsonView>) -> Seq<Seq<char>>
    decreases items.len(),
{
    if items.len() == 0 {
        Seq::empty()
    } else {
        match text::trimmed_some(items.last().as_str()) {
            Some(s) => trimmed_strings(items.drop_last()).push(s),
            None => trimmed_strings(items.drop_last()),
        }
    }
}

fn collect_trimmed(items: &Vec<Json>) -> (r: Vec<String>)
    ensures
        text::texts(r@) == trimmed_strings(json::json_views(items@)),
{
    let mut out: Vec<String> = Vec::new();
    let mut i: usize = 0;
    let ghost all = json::json_views(items@);
    assert(text::texts(out@) =~= trimmed_strings(all.take(0)));
    while i < items.len()
        invariant
            i <= items@.len(),
            all == json::json_views(items@),
            text::texts(out@) == trimmed_strings(all.take(i as int)),
        decreases items@.len() - i,
    {
        proof {
            assert(all.take(i + 1).drop_last() =~= all.take(i as int));
            assert(all.take(i + 1).last() == items@[i as int]@);
        }
        if let Some(s) = trim_some(items[i].as_str()) {
            let ghost before = text::texts(out@);
            out.push(s.to_owned());
            assert(text::texts(out@) =~= before.push(s@));
        }
        i = i + 1;
    }
    assert(all.take(all.len() as int) =~= all);
    out
}

/// A list of the text without the white space around it; an empty list where nothing is left.
pub open spec fn one_trimmed(s: Seq<char>) -> Seq<Seq<char>> {
    if text::trim_of(s).len() == 0 {
        Seq::empty()
    } else {
        seq![text::trim_of(s)]
    }
}

fn list_trimmed(s: &str) -> (r: Vec<String>)
    ensures
        text::texts(r@) == one_trimmed(s@),
{
    let t: &str = trim(s);
    let mut out: Vec<String> = Vec::new();
    if !t.is_empty() {
        out.push(t.to_owned());
    }
    assert(text::texts(out@) =~= one_trimmed(s@));
    out
}

/// The words of the command in a tool's input: a list of strings or one string, or else the
/// fallback.
pub open spec fn command_parts_of(raw_input: JsonView, fallback_title: Seq<char>) -> Seq<Seq<char>> {
    let command = raw_input.get("command"@);
    let words = match json::as_array_of(command) {
        Some(items) => trimmed_strings(items),
        None => match json::as_str_of(command) {
            Some(s) => one_trimmed(s),
            None => Seq::empty(),
        },
    };
    if words.len() > 0 {
        words
    } else {
        one_trimmed(fallback_title)
    }
}

/// The words of the command in a tool's input.
pub fn command_parts_from_raw_input(raw_input: &Json, fallback_title: &str) -> (r: Vec<String>)
    ensures
        text::texts(r@) == command_parts_of(raw_input@, fallback_title@),
{
    let command = raw_input.get("command");
    let words: Vec<String> = match as_array_in(command) {
        Some(items) => collect_trimmed(items),
        None => match as_str_in(command) {
            Some(s) => list_trimmed(s),
            None => {
                let empty: Vec<String> = Vec::new();
                assert(text::texts(empty@) =~= Seq::<Seq<char>>::empty());
                empty
            },
        },
    };
    assert(text::texts(words@).len() == words@.len());
    if words.len() > 0 {
        words
    } else {
        list_trimmed(fallback_title)
    }
}

/// The working directory in a tool's input: the first of three fields that is a string.
pub open spec fn cwd_of(raw_input: JsonView) -> Seq<char> {
    let field = match raw_input.get_str("workdir"@) {
        Some(s) => Some(s),
        None => match raw_input.get_str("cwd"@) {
            Some(s) => Some(s),
            None => raw_input.get_str("path"@),
        },
    };
    text::text_or(text::trimmed_some(field), Seq::empty())
}

/// The working directory in a tool's input; empty where there is none.
pub fn cwd_from_raw_input(raw_input: &Json) -> (r: String)
    ensures
        r@ == cwd_of(raw_input@),
{
    let field: Option<&str> = match raw_input.get_str("workdir") {
        Some(s) => Some(s),
        None => match raw_input.get_str("cwd") {
            Some(s) => Some(s),
            None => raw_input.get_str("path"),
        },
    };
    match trim_some(field) {
        Some(s) => s.to_owned(),
        None => {
            let r = String::new();
            assert(r@ =~= Seq::<char>::empty());
            r
        },
    }
}

/// The path of the file in a tool's input: the first of two fields that is a string.
pub open spec fn file_path_of(raw_input: JsonView) -> Option<Seq<char>> {
    text::trimmed_some(
        match raw_input.get_str("filePath"@) {
            Some(s) => Some(s),
            None => raw_input.get_str("path"@),
        },
    )
}

/// The path of the file in a tool's input.
pub fn file_path_from_raw_input(raw_input: &Json) -> (r: Option<String>)
    ensures
        text::opt_string(r) == file_path_of(raw_input@),
{
    let field: Option<&str> = match raw_input.get_str("filePath") {
        Some(s) => Some(s),
        None => raw_input.get_str("path"),
    };
    owned(trim_some(field))
}

/// The object with an entry of text set, where the text is more than white space.
pub open spec fn with_output(item: JsonView, key: Seq<char>, output: Option<Seq<char>>) -> JsonView {
    match output {
        Some(s) => if text::trim_of(s).len() > 0 {
            item.with(key, JsonView::Text(s))
        } else {
            item
        },
        None => item,
    }
}

/// The object with an entry of text set, where the text is more than white space.
pub fn set_output(item: Json, key: &str, output: Option<&str>) -> (r: Json)
    ensures
        r@ == with_output(item@, key@, text::opt_text(output)),
{
    match output {
        Some(s) => if !trim(s).is_empty() {
            item.with(key, Json::text(s))
        } else {
            item
        },
        None => item,
    }
}

/// The change of a file of which only the path, and perhaps a diff, is known.
pub open spec fn plain_change(path: Seq<char>, diff: Option<Seq<char>>) -> JsonView {
    let change = json::obj().and("path"@, JsonView::Text(path)).and("kind"@, JsonView::Text("modify"@));
    match diff {
        Some(d) => change.with("diff"@, JsonView::Text(d)),
        None => change,
    }
}

/// The changes that a tool's input stands for: those of its patch, or else that of its file.
pub open spec fn changes_of(raw_input: Option<JsonView>, diffs: DiffsView) -> Seq<JsonView> {
    match raw_input {
        Some(input) => match diffs.patch_changes {
            Some(changes) => changes,
            None => match file_path_of(input) {
                Some(path) => seq![plain_change(path, diffs.edit_diff)],
                None => Seq::empty(),
            },
        },
        None => Seq::empty(),
    }
}

/// The changes that a tool's input stands for.
pub fn changes_from_raw_input(raw_input: Option<&Json>, diffs: &FileDiffs) -> (r: Vec<Json>)
    ensures
        json::json_views(r@) == changes_of(json::opt_json(raw_input), diffs@),
{
    match raw_input {
        Some(input) => match &diffs.patch_changes {
            Some(changes) => clone_all(changes),
            None => match file_path_from_raw_input(input) {
                Some(path) => {
                    let change = Json::obj().and("path", Json::text(path.as_str())).and("kind", Json::text("modify"));
                    let change = match &diffs.edit_diff {
                        Some(d) => change.with("diff", Json::text(d.as_str())),
                        None => change,
                    };
                    json::one(change)
                },
                None => none(),
            },
        },
        None => none(),
    }
}

/// A copy of the list.
pub fn clone_all(items: &Vec<Json>) -> (r: Vec<Json>)
    ensures
        json::json_views(r@) == json::json_views(items@),
{
    let mut out: Vec<Json> = Vec::new();
    let mut i: usize = 0;
    while i < items.len()
        invariant
            i <= items@.len(),
            out@.len() == i,
            forall|k: int| 0 <= k < i ==> (#[trigger] out@[k])@ == items@[k]@,
        decreases items@.len() - i,
    {
        out.push(items[i].clone());
        i = i + 1;
    }
    assert(json::json_views(out@) =~= json::json_views(items@));
    out
}

/// The item that shows a tool call.
pub open spec fn tool_item(
    item_id: Seq<char>,
    item_type: Seq<char>,
    title: Seq<char>,
    status: Seq<char>,
    raw_input: Option<JsonView>,
    output: Option<Seq<char>>,
    changes_from_content: Option<Seq<JsonView>>,
    diffs: DiffsView,
) -> JsonView {
    let item = json::obj().and("id"@, JsonView::Text(item_id)).and("type"@, JsonView::Text(item_type)).and(
        "status"@,
        JsonView::Text(status),
    );
    if item_type == "commandExecution"@ {
        let words = match raw_input {
            Some(input) => command_parts_of(input, title),
            None => one_trimmed(title),
        };
        let with_command = if words.len() > 0 {
            item.with("command"@, json::text_array(words))
        } else {
            item
        };
        let with_cwd = match raw_input {
            Some(input) => if cwd_of(input).len() > 0 {
                with_command.with("cwd"@, JsonView::Text(cwd_of(input)))
            } else {
                with_command
            },
            None => with_command,
        };
        with_output(with_cwd, "aggregatedOutput"@, output)
    } else if item_type == "fileChange"@ {
        let given = match changes_from_content {
            Some(changes) => changes,
            None => Seq::empty(),
        };
        let changes = if given.len() > 0 {
            given
        } else {
            changes_of(raw_input, diffs)
        };
        let with_changes = if changes.len() > 0 {
            item.with("changes"@, JsonView::Array(changes))
        } else {
            item
        };
        with_output(with_changes, "output"@, output)
    } else {
        item
    }
}

pub open spec fn opt_views(o: Option<Vec<Json>>) -> Option<Seq<JsonView>> {
    match o {
        Some(items) => Some(json::json_views(items@)),
        None => None,
    }
}

/// The item that shows a tool call.
pub fn build_tool_item(
    item_id: &str,
    item_type: &str,
    title: &str,
    status: &str,
    raw_input: Option<&Json>,
    output: Option<&str>,
    changes_from_content: Option<Vec<Json>>,
    diffs: &FileDiffs,
) -> (r: Json)
    ensures
        r@ == tool_item(
            item_id@,
            item_type@,
            title@,
            status@,
            json::opt_json(raw_input),
            text::opt_text(output),
            opt_views(changes_from_content),
            diffs@,
        ),
{
    let item = Json::obj().and("id", Json::text(item_id)).and("type", Json::text(item_type)).and(
        "status",
        Json::text(status),
    );
    if str_eq(item_type, "commandExecution") {
        let words: Vec<String> = match raw_input {
            Some(input) => command_parts_from_raw_input(input, title),
            None => list_trimmed(title),
        };
        assert(text::texts(words@).len() == words@.len());
        let item = if words.len() > 0 {
            item.with("command", Json::texts(&words))
        } else {
            item
        };
        let item = match raw_input {
            Some(input) => {
                let cwd: String = cwd_from_raw_input(input);
                if !cwd.as_str().is_empty() {
                    item.with("cwd", Json::text(cwd.as_str()))
                } else {
                    item
                }
            },
            None => item,
        };
        set_output(item, "aggregatedOutput", output)
    } else if str_eq(item_type, "fileChange") {
        let given: Vec<Json> = match changes_from_content {
            Some(changes) => changes,
            None => none(),
        };
        assert(json::json_views(given@).len() == given@.len());
        let changes: Vec<Json> = if given.len() > 0 {
            given
        } else {
            changes_from_raw_input(raw_input, diffs)
        };
        assert(json::json_views(changes@).len() == changes@.len());
        let item = if changes.len() > 0 {
            item.with("changes", Json::array(changes))
        } else {
            item
        };
        set_output(item, "output", output)
    } else {
        item
    }
}

// ---------------------------------------------------------------------------
// What a running tool shows of its input
// ---------------------------------------------------------------------------

/// How many files of a patch are named in its summary.
pub const NAMED_FILES: usize = 3;

/// The kind and the path of a change.
pub open spec fn change_label(change: JsonView) -> Seq<char> {
    text::text_or(change.get_str("kind"@), "modify"@) + " "@ + text::text_or(change.get_str("path"@), "file"@)
}

/// A line that names the first files of a patch and counts the others.
pub open spec fn patch_summary(changes: Seq<JsonView>) -> Seq<char> {
    let total = changes.len();
    let named = if total < NAMED_FILES {
        total
    } else {
        NAMED_FILES as nat
    };
    let labels = changes.take(named as int).map_values(|c: JsonView| change_label(c));
    let plural = if total == 1 {
        ""@
    } else {
        "s"@
    };
    let head = "Applying patch to "@ + text::decimal(total) + " file"@ + plural + ": "@ + text::joined(labels, ", "@);
    if total > named {
        head + ", +"@ + text::decimal((total - named) as nat) + " more"@
    } else {
        head
    }
}

/// What is shown of a patch that is being applied; nothing where the input has no patch, or one
/// that the generator could not read.
pub open spec fn patch_delta_summary(raw_input: JsonView, diffs: DiffsView) -> Option<Seq<char>> {
    match raw_input.get_str("patchText"@) {
        Some(patch) => if text::trim_of(patch).len() == 0 {
            Some("Applying patch..."@)
        } else {
            match diffs.patch_changes {
                Some(changes) => if changes.len() == 0 {
                    Some("Applying patch..."@)
                } else {
                    Some(patch_summary(changes))
                },
                None => None,
            }
        },
        None => None,
    }
}

fn change_labels(changes: &Vec<Json>, n: usize) -> (r: Vec<String>)
    requires
        n <= changes@.len(),
    ensures
        text::texts(r@) == json::json_views(changes@).take(n as int).map_values(|c: JsonView| change_label(c)),
{
    let mut out: Vec<String> = Vec::new();
    let mut i: usize = 0;
    let ghost all = json::json_views(changes@);
    while i < n
        invariant
            i <= n <= changes@.len(),
            out@.len() == i,
            all == json::json_views(changes@),
            forall|k: int| 0 <= k < i ==> (#[trigger] out@[k])@ == change_label(all[k]),
        decreases n - i,
    {
        let change = &changes[i];
        out.push(cat3(str_or(change.get_str("kind"), "modify"), " ", str_or(change.get_str("path"), "file")));
        assert(out@[i as int]@ == change_label(all[i as int]));
        i = i + 1;
    }
    assert(text::texts(out@) =~= all.take(n as int).map_values(|c: JsonView| change_label(c)));
    out
}

fn summarize_patch(changes: &Vec<Json>) -> (r: String)
    ensures
        r@ == patch_summary(json::json_views(changes@)),
{
    let total: usize = changes.len();
    let named: usize = if total < NAMED_FILES {
        total
    } else {
        NAMED_FILES
    };
    let labels: Vec<String> = change_labels(changes, named);
    let mut out: String = cat("Applying patch to ", decimal_text(total as u64).as_str());
    out.append(" file");
    out.append(
        if total == 1 {
            ""
        } else {
            "s"
        },
    );
    out.append(": ");
    out.append(join(&labels, ", ").as_str());
    if total > named {
        out.append(", +");
        out.append(decimal_text((total - named) as u64).as_str());
        out.append(" more");
    }
    out
}

/// What is shown of a patch that is being applied.
pub fn build_apply_patch_delta_summary(raw_input: &Json, diffs: &FileDiffs) -> (r: Option<String>)
    ensures
        text::opt_string(r) == patch_delta_summary(raw_input@, diffs@),
{
    match raw_input.get_str("patchText") {
        Some(patch) => if trim(patch).is_empty() {
            Some("Applying patch...".to_owned())
        } else {
            match &diffs.patch_changes {
                Some(changes) => if changes.len() == 0 {
                    Some("Applying patch...".to_owned())
                } else {
                    Some(summarize_patch(changes))
                },
                None => None,
            }
        },
        None => None,
    }
}

/// What a running tool shows of its input, given the input's notation over several lines.
pub open spec fn delta_text_of(
    tool_name: Seq<char>,
    raw_input: JsonView,
    notation: Seq<char>,
    diffs: DiffsView,
) -> Seq<char> {
    if tool_name == "apply_patch"@ {
        text::text_or(patch_delta_summary(raw_input, diffs), "Applying patch..."@)
    } else {
        notation
    }
}

/// The notation of an input over several lines.
pub open spec fn notation_of(raw_input: JsonView) -> Seq<char> {
    text::text_or(json_text::pretty_text(json_text::canonical(raw_input)), Seq::empty())
}

/// What a running tool shows of its input, given the input's notation over several lines.
pub fn choose_delta_text(tool_name: &str, raw_input: &Json, notation: String, diffs: &FileDiffs) -> (r: String)
    ensures
        r@ == delta_text_of(tool_name@, raw_input@, notation@, diffs@),
{
    if str_eq(tool_name, "apply_patch") {
        match build_apply_patch_delta_summary(raw_input, diffs) {
            Some(s) => s,
            None => "Applying patch...".to_owned(),
        }
    } else {
        notation
    }
}

/// What a running tool shows of its input: a summary for a patch, its notation for anything else.
pub fn tool_input_delta_text(tool_name: &str, raw_input: &Json, diffs: &FileDiffs) -> (r: String)
    ensures
        r@ == delta_text_of(tool_name@, raw_input@, notation_of(raw_input@), diffs@),
{
    choose_delta_text(tool_name, raw_input, pretty_json(raw_input), diffs)
}

// ---------------------------------------------------------------------------
// Explorations
// ---------------------------------------------------------------------------

/// A field of a tool's input, where it is a string.
pub open spec fn input_str(raw_input: Option<JsonView>, key: Seq<char>) -> Option<Seq<char>> {
    json::as_str_of(json::get_of(raw_input, key))
}

/// The title, or, where it is empty, a field of the input.
pub open spec fn title_or(
    title: Seq<char>,
    raw_input: Option<JsonView>,
    key: Seq<char>,
    fallback: Seq<char>,
) -> Seq<char> {
    if title.len() > 0 {
        title
    } else {
        text::text_or(input_str(raw_input, key), fallback)
    }
}

fn pick_title<'a>(title: &'a str, raw_input: Option<&'a Json>, key: &str, fallback: &'a str) -> (r: &'a str)
    ensures
        r@ == title_or(title@, json::opt_json(raw_input), key@, fallback@),
{
    if !title.is_empty() {
        title
    } else {
        str_or(as_str_in(get_in(raw_input, key)), fallback)
    }
}

/// What an exploration shows: the name of the file that was read, the pattern and the place of a
/// search, the place of a listing, or else the title.
pub open spec fn explore_label(tool_name: Seq<char>, title: Seq<char>, raw_input: Option<JsonView>) -> Seq<char> {
    if tool_name == "read"@ {
        text::last_segment_of(title_or(title, raw_input, "filePath"@, "file"@))
    } else if tool_name == "grep"@ {
        let pattern = title_or(title, raw_input, "pattern"@, "pattern"@);
        let path = text::text_or(input_str(raw_input, "path"@), ""@);
        if path.len() > 0 {
            pattern + " in "@ + path
        } else {
            pattern
        }
    } else if tool_name == "glob"@ || tool_name == "list"@ || tool_name == "ls"@ {
        title_or(title, raw_input, "path"@, "."@)
    } else {
        title
    }
}

/// The whole path of a file that was read, where it is more than the file's name.
pub open spec fn explore_detail(
    tool_name: Seq<char>,
    title: Seq<char>,
    raw_input: Option<JsonView>,
) -> Option<Seq<char>> {
    let path = title_or(title, raw_input, "filePath"@, "file"@);
    if tool_name == "read"@ && text::last_segment_of(path) != path {
        Some(path)
    } else {
        None
    }
}

/// The entry of an exploration.
pub open spec fn explore_entry(tool_name: Seq<char>, title: Seq<char>, raw_input: Option<JsonView>) -> JsonView {
    let entry = json::obj().and("kind"@, JsonView::Text(explore_kind_of(tool_name))).and(
        "label"@,
        JsonView::Text(explore_label(tool_name, title, raw_input)),
    );
    match explore_detail(tool_name, title, raw_input) {
        Some(d) => entry.with("detail"@, JsonView::Text(d)),
        None => entry,
    }
}

/// The entry of an exploration.
pub fn build_explore_entry(tool_name: &str, title: &str, raw_input: Option<&Json>) -> (r: Json)
    ensures
        r@ == explore_entry(tool_name@, title@, json::opt_json(raw_input)),
{
    let mut detail: Option<&str> = None;
    let label: String = if str_eq(tool_name, "read") {
        let path: &str = pick_title(title, raw_input, "filePath", "file");
        let name: &str = last_segment(path);
        if !str_eq(name, path) {
            detail = Some(path);
        }
        name.to_owned()
    } else if str_eq(tool_name, "grep") {
        let pattern: &str = pick_title(title, raw_input, "pattern", "pattern");
        let path: &str = str_or(as_str_in(get_in(raw_input, "path")), "");
        if !path.is_empty() {
            cat3(pattern, " in ", path)
        } else {
            pattern.to_owned()
        }
    } else if str_eq(tool_name, "glob") || str_eq(tool_name, "list") || str_eq(tool_name, "ls") {
        pick_title(title, raw_input, "path", ".").to_owned()
    } else {
        title.to_owned()
    };
    let entry = Json::obj().and("kind", Json::text(tool_to_explore_kind(tool_name))).and(
        "label",
        Json::text(label.as_str()),
    );
    match detail {
        Some(d) => entry.with("detail", Json::text(d)),
        None => entry,
    }
}

// ---------------------------------------------------------------------------
// Tasks of other agents
// ---------------------------------------------------------------------------

/// What a task asks for: its description, or else its prompt.
pub open spec fn task_prompt_of(raw_input: Option<JsonView>) -> Seq<char> {
    match text::trimmed_some(input_str(raw_input, "description"@)) {
        Some(s) => s,
        None => text::text_or(text::trimmed_some(input_str(raw_input, "prompt"@)), Seq::empty()),
    }
}

/// What a task asks for; empty where it says nothing.
pub fn task_collab_prompt(raw_input: Option<&Json>) -> (r: String)
    ensures
        r@ == task_prompt_of(json::opt_json(raw_input)),
{
    match trim_some(as_str_in(get_in(raw_input, "description"))) {
        Some(s) => s.to_owned(),
        None => match trim_some(as_str_in(get_in(raw_input, "prompt"))) {
            Some(s) => s.to_owned(),
            None => {
                let r = String::new();
                assert(r@ =~= Seq::<char>::empty());
                r
            },
        },
    }
}

/// The status of a task's agent for an item of the given status.
pub open spec fn task_agent_status_of(item_status: Seq<char>) -> Seq<char> {
    if item_status == "in_progress"@ {
        "running"@
    } else if item_status == "completed"@ {
        "completed"@
    } else if item_status == "failed"@ {
        "failed"@
    } else {
        "unknown"@
    }
}

/// The status of the agent that a task names; nothing where it names none.
pub open spec fn task_agent_status_map_of(item_status: Seq<char>, raw_input: Option<JsonView>) -> Option<JsonView> {
    match text::trimmed_some(input_str(raw_input, "subagent_type"@)) {
        Some(agent) => Some(
            json::obj().and(agent, json::obj().and("status"@, JsonView::Text(task_agent_status_of(item_status)))),
        ),
        None => None,
    }
}

/// The status of the agent that a task names; nothing where it names none.
pub fn task_collab_agent_status_map(item_status: &str, raw_input: Option<&Json>) -> (r: Option<Json>)
    ensures
        json::opt_json_owned(r) == task_agent_status_map_of(item_status@, json::opt_json(raw_input)),
{
    match trim_some(as_str_in(get_in(raw_input, "subagent_type"))) {
        Some(agent) => {
            let status: &str = if str_eq(item_status, "in_progress") {
                "running"
            } else if str_eq(item_status, "completed") {
                "completed"
            } else if str_eq(item_status, "failed") {
                "failed"
            } else {
                "unknown"
            };
            Some(Json::obj().and(agent, Json::obj().and("status", Json::text(status))))
        },
        None => None,
    }
}

/// The item that shows a task given to another agent.
pub open spec fn task_item(
    item_id: Seq<char>,
    status: Seq<char>,
    raw_input: Option<JsonView>,
    thread_id: Seq<char>,
) -> JsonView {
    let item = json::obj().and("id"@, JsonView::Text(item_id)).and("type"@, JsonView::Text("collabToolCall"@)).and(
        "tool"@,
        JsonView::Text("task"@),
    ).and("status"@, JsonView::Text(status)).and("senderThreadId"@, JsonView::Text(thread_id));
    let prompt = task_prompt_of(raw_input);
    let with_prompt = if prompt.len() > 0 {
        item.with("prompt"@, JsonView::Text(prompt))
    } else {
        item
    };
    match task_agent_status_map_of(status, raw_input) {
        Some(m) => with_prompt.with("agentStatus"@, m),
        None => with_prompt,
    }
}

/// The item that shows a task given to another agent.
pub fn build_task_collab_tool_item(
    item_id: &str,
    status: &str,
    raw_input: Option<&Json>,
    thread_id: &str,
) -> (r: Json)
    ensures
        r@ == task_item(item_id@, status@, json::opt_json(raw_input), thread_id@),
{
    let item = Json::obj().and("id", Json::text(item_id)).and("type", Json::text("collabToolCall")).and(
        "tool",
        Json::text("task"),
    ).and("status", Json::text(status)).and("senderThreadId", Json::text(thread_id));
    let prompt: String = task_collab_prompt(raw_input);
    let item = if !prompt.as_str().is_empty() {
        item.with("prompt", Json::text(prompt.as_str()))
    } else {
        item
    };
    match task_collab_agent_status_map(status, raw_input) {
        Some(m) => item.with("agentStatus", m),
        None => item,
    }
}

} // verus!
