//! What helper prompts ask and answer, and what is known of settings, workspaces and the installation.

use vstd::prelude::*;

use crate::background;
use crate::background::PollView;
use crate::doctor;
use crate::doctor::{NodeCheck, NodeReportView};
use crate::json::JsonView;
use crate::json_text;
use crate::reading;
use crate::settings;
use crate::settings::ReadView;
use crate::text;
use crate::text_laws;
use crate::workspaces;
use crate::workspaces::WorkspaceView;

verus! {

proof fn lemma_helper_names()
    ensures
        ""@.len() == 0,
        "appServerOk"@.len() == 11,
        "appServerOk"@[0] == 'a',
        "assistant"@.len() == 9,
        "assistant"@[0] == 'a',
        "busy"@.len() == 4,
        "busy"@[0] == 'b',
        "codexBin"@.len() == 8,
        "completed"@.len() == 9,
        "completed"@[0] == 'c',
        "data"@.len() == 4,
        "data"@[0] == 'd',
        "details"@.len() == 7,
        "details"@[0] == 'd',
        "error"@.len() == 5,
        "error"@[0] == 'e',
        "id"@.len() == 2,
        "id"@[0] == 'i',
        "info"@.len() == 4,
        "info"@[0] == 'i',
        "message"@.len() == 7,
        "message"@[0] == 'm',
        "model"@.len() == 5,
        "model"@[0] == 'm',
        "name"@.len() == 4,
        "name"@[0] == 'n',
        "nodeDetails"@.len() == 11,
        "nodeDetails"@[0] == 'n',
        "nodeDetails"@[4] == 'D',
        "nodeOk"@.len() == 6,
        "nodeVersion"@.len() == 11,
        "nodeVersion"@[0] == 'n',
        "nodeVersion"@[4] == 'V',
        "ok"@.len() == 2,
        "ok"@[0] == 'o',
        "parts"@.len() == 5,
        "parts"@[0] == 'p',
        "path"@.len() == 4,
        "path"@[0] == 'p',
        "retry"@.len() == 5,
        "retry"@[0] == 'r',
        "role"@.len() == 4,
        "role"@[0] == 'r',
        "text"@.len() == 4,
        "text"@[0] == 't',
        "text"@[1] == 'e',
        "time"@.len() == 4,
        "time"@[0] == 't',
        "time"@[1] == 'i',
        "title"@.len() == 5,
        "title"@[0] == 't',
        "type"@.len() == 4,
        "type"@[0] == 't',
        "type"@[1] == 'y',
        "version"@.len() == 7,
        "version"@[0] == 'v',
        "worktreeName"@.len() == 12,
        "worktree_name"@.len() == 13,
{
    reveal_strlit("");
    reveal_strlit("appServerOk");
    reveal_strlit("assistant");
    reveal_strlit("busy");
    reveal_strlit("codexBin");
    reveal_strlit("completed");
    reveal_strlit("data");
    reveal_strlit("details");
    reveal_strlit("error");
    reveal_strlit("id");
    reveal_strlit("info");
    reveal_strlit("message");
    reveal_strlit("model");
    reveal_strlit("name");
    reveal_strlit("nodeDetails");
    reveal_strlit("nodeOk");
    reveal_strlit("nodeVersion");
    reveal_strlit("ok");
    reveal_strlit("parts");
    reveal_strlit("path");
    reveal_strlit("retry");
    reveal_strlit("role");
    reveal_strlit("text");
    reveal_strlit("time");
    reveal_strlit("title");
    reveal_strlit("type");
    reveal_strlit("version");
    reveal_strlit("worktreeName");
    reveal_strlit("worktree_name");
}

// ---------------------------------------------------------------------------
// Prompts
// ---------------------------------------------------------------------------

/// The prompt for a commit message holds the diff: where the template has its placeholder, the
/// diff stands in its place; where it has none, the diff stands behind the template.
pub proof fn law_prompt_holds_the_diff(before: Seq<char>, behind: Seq<char>, diff: Seq<char>)
    ensures
        ({
            let template = before + "{diff}"@ + behind;
            (forall|k: int| 0 <= k < before.len() ==> !#[trigger] text_laws::stands_at(template, "{diff}"@, k))
                ==> background::commit_message_prompt(diff, template) == before + diff + text::replaced_from(
                behind,
                "{diff}"@,
                diff,
                0,
            )
        }),
        !reading::is_blank(before) && (forall|k: int|
            0 <= k ==> !#[trigger] text_laws::stands_at(before, "{diff}"@, k)) ==> background::commit_message_prompt(
            diff,
            before,
        ) == before + "\n\nChanges:\n"@ + diff,
{
    reveal_strlit("{diff}");
    let template = before + "{diff}"@ + behind;
    assert(template[before.len() as int] == '{');
    assert(!text::white_space('{'));
    assert(!reading::is_blank(template));
    text_laws::law_trimming_leaves_the_rest(template);
    text_laws::law_trimming_leaves_the_rest(before);
    text_laws::law_first_occurrence_is_found(template, "{diff}"@, 0);
    text_laws::law_first_occurrence_is_found(before, "{diff}"@, 0);
    assert(template.subrange(before.len() as int, before.len() as int + 6) =~= "{diff}"@);
    assert(text_laws::stands_at(template, "{diff}"@, before.len() as int));
    text_laws::law_replacing_puts_the_text_in_place(before, behind, "{diff}"@, diff);
}

/// A blank template stands for the usual one, and a blank diff has no prompt.
pub proof fn law_blank_template_is_the_usual_one(diff: Seq<char>, template: Seq<char>)
    ensures
        reading::is_blank(template) ==> background::commit_message_prompt(diff, template) == background::commit_message_prompt(
            diff,
            background::DEFAULT_COMMIT_MESSAGE_PROMPT@,
        ),
        reading::is_blank(diff) ==> background::prompt_for_diff(diff, template) == Err::<Seq<char>, Seq<char>>(
            "No changes to generate commit message for"@,
        ),
        !reading::is_blank(diff) ==> background::prompt_for_diff(diff, template) == Ok::<Seq<char>, Seq<char>>(
            background::commit_message_prompt(diff, template),
        ),
{
    text_laws::law_trimming_leaves_the_rest(template);
    text_laws::law_trimming_leaves_the_rest(diff);
}

/// The prompt for the metadata of a run ends with the user's prompt, without the white space around
/// it; a blank one is refused.
pub proof fn law_metadata_prompt_ends_with_the_task(prompt: Seq<char>)
    ensures
        match background::metadata_prompt(prompt) {
            Ok(p) => {
                &&& !reading::is_blank(prompt)
                &&& p == background::RUN_METADATA_PROMPT@ + text::trim_of(prompt)
            },
            Err(e) => reading::is_blank(prompt) && e == "Prompt is required."@,
        },
{
    text_laws::law_trimming_leaves_the_rest(prompt);
}

// ---------------------------------------------------------------------------
// Metadata of runs
// ---------------------------------------------------------------------------

/// What stands in braces is found from the first opening one to the last closing one.
pub proof fn law_braces_are_found(before: Seq<char>, inner: Seq<char>, behind: Seq<char>)
    requires
        !before.contains('{'),
        !behind.contains('}'),
    ensures
        background::braced(before + seq!['{'] + inner + seq!['}'] + behind) == Some(seq!['{'] + inner + seq!['}']),
        background::braced(before) is None,
        background::braced(behind) is None,
        background::braced_json(before + seq!['{'] + inner + seq!['}'] + behind) == json_text::parsed_tree(
            seq!['{'] + inner + seq!['}'],
        ),
{
    let raw = before + seq!['{'] + inner + seq!['}'] + behind;
    let start = before.len() as int;
    let end = (before.len() + 1 + inner.len()) as int;
    text_laws::law_first_character_is_found(raw, '{', 0);
    text_laws::law_last_character_is_found(raw, '}', raw.len() as int);
    text_laws::law_first_character_is_found(before, '{', 0);
    text_laws::law_last_character_is_found(behind, '}', behind.len() as int);
    assert(raw[start] == '{');
    assert(raw[end] == '}');
    assert forall|k: int| 0 <= k < start implies #[trigger] raw[k] != '{' by {
        assert(before.contains(before[k]));
    }
    assert forall|k: int| end < k < raw.len() implies #[trigger] raw[k] != '}' by {
        assert(raw[k] == behind[k - end - 1]);
        assert(behind.contains(behind[k - end - 1]));
    }
    assert(text::char_from(raw, '{', 0) == Some(start));
    assert(text::char_before(raw, '}', raw.len() as int) == Some(end));
    assert(raw.subrange(start, end + 1) =~= seq!['{'] + inner + seq!['}']);
}

/// The metadata of a run are the title and the cleaned name of the worktree that the value tells;
/// where it tells no title or no name, that is said.
pub proof fn law_metadata_tell_title_and_worktree(value: JsonView)
    ensures
        ({
            let title = text::trim_of(reading::string_at(value, "title"@));
            let told = reading::first(value.get("worktreeName"@), value.get("worktree_name"@));
            match background::run_metadata(Some(value)) {
                Ok(m) => {
                    &&& title.len() > 0
                    &&& m.get("title"@) == reading::found(title)
                    &&& told matches Some(JsonView::Text(name)) && m.get("worktreeName"@) == reading::found(
                        background::sanitized_worktree_name(name),
                    ) && background::sanitized_worktree_name(name).len() > 0
                },
                Err(e) => {
                    &&& title.len() == 0 ==> e == "Missing title in metadata"@
                    &&& title.len() > 0 ==> e == "Missing worktree name in metadata"@ && (
                    told matches Some(JsonView::Text(name)) ==> background::sanitized_worktree_name(name).len() == 0)
                },
            }
        }),
        background::run_metadata(None) == Err::<JsonView, Seq<char>>("Failed to parse metadata JSON"@),
{
    broadcast use reading::group_reading;
    lemma_helper_names();
    assert(text::trim_of(Seq::<char>::empty()).len() == 0);
}

proof fn lemma_kind_found(s: Seq<char>, kinds: Seq<Seq<char>>, mark: Seq<char>, from: int, i: int)
    requires
        0 <= from <= i < kinds.len(),
        text::has_prefix(s, kinds[i] + mark),
    ensures
        background::kind_from(s, kinds, mark, from) is Some,
    decreases i - from,
{
    if from < i {
        lemma_kind_found(s, kinds, mark, from + 1, i);
    }
}

proof fn lemma_kind_stays(i: int, rest: Seq<char>)
    requires
        0 <= i < background::work_kinds().len(),
    ensures
        ({
            let name = background::work_kinds()[i] + "/"@ + rest;
            background::with_work_kind(name) == name
        }),
{
    let head = background::work_kinds()[i] + "/"@;
    assert((head + rest).take(head.len() as int) =~= head);
    lemma_kind_found(head + rest, background::work_kinds(), "/"@, 0, i);
}

/// A name that starts with one of the ten kinds of work and a slash keeps them.
pub proof fn law_kind_of_work_stays(rest: Seq<char>)
    ensures
        background::with_work_kind("feat"@ + "/"@ + rest) == "feat"@ + "/"@ + rest,
        background::with_work_kind("fix"@ + "/"@ + rest) == "fix"@ + "/"@ + rest,
        background::with_work_kind("chore"@ + "/"@ + rest) == "chore"@ + "/"@ + rest,
        background::with_work_kind("test"@ + "/"@ + rest) == "test"@ + "/"@ + rest,
        background::with_work_kind("docs"@ + "/"@ + rest) == "docs"@ + "/"@ + rest,
        background::with_work_kind("refactor"@ + "/"@ + rest) == "refactor"@ + "/"@ + rest,
        background::with_work_kind("perf"@ + "/"@ + rest) == "perf"@ + "/"@ + rest,
        background::with_work_kind("build"@ + "/"@ + rest) == "build"@ + "/"@ + rest,
        background::with_work_kind("ci"@ + "/"@ + rest) == "ci"@ + "/"@ + rest,
        background::with_work_kind("style"@ + "/"@ + rest) == "style"@ + "/"@ + rest,
{
    lemma_kind_stays(0, rest);
    lemma_kind_stays(1, rest);
    lemma_kind_stays(2, rest);
    lemma_kind_stays(3, rest);
    lemma_kind_stays(4, rest);
    lemma_kind_stays(5, rest);
    lemma_kind_stays(6, rest);
    lemma_kind_stays(7, rest);
    lemma_kind_stays(8, rest);
    lemma_kind_stays(9, rest);
}

/// White space around the name that a run asks for does not count, and neither does the size of its
/// letters.
pub proof fn law_worktree_name_is_that_of_the_plain_text(a: Seq<char>, b: Seq<char>)
    ensures
        text::lowercase_text(text::trim_of(a)) == text::lowercase_text(text::trim_of(b))
            ==> background::sanitized_worktree_name(a) == background::sanitized_worktree_name(b),
{
}

/// The metadata of a run are read from the braces in the answer; a blank answer holds none.
pub proof fn law_metadata_are_read_from_the_answer(raw: Seq<char>)
    ensures
        reading::is_blank(raw) ==> background::metadata_of_answer(raw) == Err::<JsonView, Seq<char>>(
            "No metadata was generated"@,
        ),
        !reading::is_blank(raw) ==> background::metadata_of_answer(raw) == background::run_metadata(
            background::braced_json(text::trim_of(raw)),
        ),
{
    text_laws::law_trimming_leaves_the_rest(raw);
}

// ---------------------------------------------------------------------------
// The helper session
// ---------------------------------------------------------------------------

/// A new session is the one whose identifier the server answers.
pub proof fn law_helper_session_is_the_answered_one(response: JsonView, notation: Seq<char>)
    ensures
        match response.get("id"@) {
            Some(JsonView::Text(id)) => background::helper_session_id(response, notation) == Ok::<
                Seq<char>,
                Seq<char>,
            >(id),
            _ => background::helper_session_id(response, notation) == Err::<Seq<char>, Seq<char>>(
                "Failed to get session id from POST /session response: "@ + notation,
            ),
        },
{
}

/// Messages and prompts of a session are reached under its identifier.
pub proof fn law_session_is_reached_by_its_id(thread_id: Seq<char>)
    ensures
        background::message_path_of(thread_id) == "/session/"@ + thread_id + "/message"@,
        background::prompt_path_of(thread_id) == "/session/"@ + thread_id + "/prompt_async"@,
{
}

/// A background prompt is one part of text, and names a model where one is given.
pub proof fn law_background_body_holds_the_prompt(prompt: Seq<char>, model: Option<JsonView>)
    ensures
        ({
            let body = background::background_body(prompt, model);
            &&& body.get("parts"@) matches Some(JsonView::Array(parts)) && parts.len() == 1 && parts[0].get("type"@)
                == reading::found("text"@) && parts[0].get("text"@) == reading::found(prompt)
            &&& body.get("model"@) == model
        }),
{
    broadcast use reading::group_reading;
    lemma_helper_names();
}

/// A hidden session stands among the hidden ones once, behind those that were there, which stay as
/// they were.
pub proof fn law_hiding_keeps_the_others(ids: Seq<Seq<char>>, id: Seq<char>)
    ensures
        ({
            let after = background::with_hidden(ids, id);
            &&& after.contains(id)
            &&& after.take(ids.len() as int) == ids
            &&& ids.contains(id) ==> after == ids
            &&& !ids.contains(id) ==> after.len() == ids.len() + 1
        }),
{
    let after = background::with_hidden(ids, id);
    assert(after.take(ids.len() as int) =~= ids);
    if !ids.contains(id) {
        assert(after[ids.len() as int] == id);
    }
}

/// The texts of an answer stand one behind the other.
pub proof fn law_answer_is_read_part_by_part(a: Seq<JsonView>, b: Seq<JsonView>)
    ensures
        background::parts_text(a + b) == background::parts_text(a) + background::parts_text(b),
        background::parts_text(Seq::empty()).len() == 0,
    decreases b.len(),
{
    if b.len() == 0 {
        assert(a + b =~= a);
        assert(background::parts_text(a) + background::parts_text(b) =~= background::parts_text(a));
    } else {
        let init = b.drop_last();
        law_answer_is_read_part_by_part(a, init);
        assert((a + b).drop_last() =~= a + init);
        assert((a + b).last() == b.last());
        assert(background::parts_text(a + b) =~= background::parts_text(a) + background::parts_text(b));
    }
}

/// A part of an answer tells its text, where it is one of text.
pub proof fn law_part_of_an_answer_tells_its_text(part: JsonView)
    ensures
        part.get("type"@) == reading::found("text"@) ==> background::parts_text(seq![part]) == reading::string_at(
            part,
            "text"@,
        ),
        part.get("type"@) != reading::found("text"@) ==> background::parts_text(seq![part]).len() == 0,
{
    reveal_with_fuel(background::parts_text, 2);
    assert(seq![part].drop_last() =~= Seq::<JsonView>::empty());
    assert(Seq::<char>::empty() + background::part_text(part) =~= background::part_text(part));
}

/// The text of an answer is that of its parts, without the white space around it.
pub proof fn law_answer_is_the_text_of_its_parts(response: JsonView)
    ensures
        match response.get("parts"@) {
            Some(JsonView::Array(parts)) => background::response_text(response) == Ok::<Seq<char>, Seq<char>>(
                text::trim_of(background::parts_text(parts)),
            ),
            _ => background::response_text(response) == Err::<Seq<char>, Seq<char>>(
                "Failed to parse helper response parts"@,
            ),
        },
{
}

/// An error is told by the first of its messages that is there.
pub proof fn law_error_of_a_helper_is_told(error: JsonView)
    ensures
        ({
            let told = reading::first(
                reading::within(error.get("data"@), "message"@),
                reading::first(error.get("message"@), reading::first(error.get("error"@), error.get("name"@))),
            );
            background::helper_error_text(error) == (match told {
                Some(JsonView::Text(s)) => s,
                _ => "Unknown error during helper prompt"@,
            })
        }),
{
}

/// Whether an entry is a message of the assistant.
pub open spec fn is_by_assistant(entry: JsonView) -> bool {
    reading::within(entry.get("info"@), "role"@) == reading::found("assistant"@)
}

/// The last message of the assistant decides: messages of others behind it do not count, and an
/// entry that tells nothing of itself leaves everything open.
pub proof fn law_last_message_of_the_assistant_decides(entries: Seq<JsonView>, entry: JsonView)
    ensures
        ({
            let result = background::messages_result(entries.push(entry));
            &&& entry.get("info"@) is None ==> result is None
            &&& entry.get("info"@) is Some && !is_by_assistant(entry) ==> result == background::messages_result(entries)
            &&& is_by_assistant(entry) ==> result == background::messages_result(seq![entry])
        }),
        background::messages_result(Seq::empty()) is None,
{
    reveal_with_fuel(background::messages_result, 2);
    assert(entries.push(entry).drop_last() =~= entries);
    assert(seq![entry].last() == entry);
}

/// A message of the assistant tells its error, where it has one; nothing before it is completed;
/// and then its text, or that there is none.
pub proof fn law_message_of_the_assistant_tells_the_result(entry: JsonView)
    requires
        is_by_assistant(entry),
    ensures
        ({
            let result = background::messages_result(seq![entry]);
            let error = reading::within(entry.get("info"@), "error"@);
            let completed = reading::within(reading::within(entry.get("info"@), "time"@), "completed"@);
            let told = match background::response_text(entry) {
                Ok(s) => s,
                Err(_) => Seq::empty(),
            };
            &&& error matches Some(e) ==> result == Some(
                Err::<Seq<char>, Seq<char>>(background::helper_error_text(e)),
            )
            &&& error is None && completed is None ==> result is None
            &&& error is None && completed is Some && told.len() > 0 ==> result == Some(
                Ok::<Seq<char>, Seq<char>>(told),
            )
            &&& error is None && completed is Some && told.len() == 0 ==> result == Some(
                Err::<Seq<char>, Seq<char>>("No response was generated"@),
            )
        }),
{
    assert(seq![entry].last() == entry);
}

/// The messages of a session are a list; anything else leaves everything open.
pub proof fn law_result_is_read_from_the_messages(messages: JsonView)
    ensures
        match messages {
            JsonView::Array(entries) => background::background_result(messages) == background::messages_result(entries),
            _ => background::background_result(messages) is None,
        },
{
}

/// The session is at work where its status says that it is busy or tries again.
pub proof fn law_session_at_work(statuses: JsonView, thread_id: Seq<char>)
    ensures
        ({
            let status = reading::within(statuses.get(thread_id), "type"@);
            background::is_working(statuses, thread_id) <==> status == reading::found("busy"@) || status
                == reading::found("retry"@)
        }),
{
}

/// Waiting ends with the result that is there. Without one it goes on while the session works, and
/// ends after four looks in a row at which it did not.
pub proof fn law_waiting_ends_with_the_result(
    idle_polls: nat,
    statuses: JsonView,
    thread_id: Seq<char>,
    messages: JsonView,
)
    ensures
        ({
            let step = background::poll_step(idle_polls, statuses, thread_id, messages);
            let working = background::is_working(statuses, thread_id);
            &&& background::background_result(messages) matches Some(r) ==> step == PollView::Over(r)
            &&& background::background_result(messages) is None && working ==> step == PollView::Again(0)
            &&& background::background_result(messages) is None && !working && idle_polls < 3 ==> step
                == PollView::Again(idle_polls + 1)
            &&& background::background_result(messages) is None && !working && idle_polls >= 3 ==> step
                == PollView::Over(Err::<Seq<char>, Seq<char>>("No response was generated"@))
        }),
{
}

// ---------------------------------------------------------------------------
// The installation
// ---------------------------------------------------------------------------

/// What is given goes before what is configured, unless it is blank.
pub proof fn law_given_goes_before_configured(given: Seq<char>, configured: Option<Seq<char>>)
    ensures
        doctor::given_or_configured(None, configured) == configured,
        reading::is_blank(given) ==> doctor::given_or_configured(Some(given), configured) == configured,
        !reading::is_blank(given) ==> doctor::given_or_configured(Some(given), configured) == Some(given),
{
    text_laws::law_trimming_leaves_the_rest(given);
}

/// Node works where it ran and told its version, which is then reported without the white space
/// around it, and nothing else is.
pub proof fn law_node_works_where_it_tells_its_version(check: NodeCheck)
    ensures
        ({
            let report = doctor::node_report(check);
            &&& report.ok <==> (check matches NodeCheck::Ran { success, stdout, stderr } && success
                && !reading::is_blank(stdout@))
            &&& report.ok <==> report.version is Some
            &&& report.ok ==> report.details is None
            &&& report.version matches Some(v) ==> (check matches NodeCheck::Ran { success, stdout, stderr } && v
                == text::trim_of(stdout@))
        }),
{
    if let NodeCheck::Ran { success, stdout, stderr } = check {
        text_laws::law_trimming_leaves_the_rest(stdout@);
    }
}

/// What went wrong with Node is told: what it wrote as errors, or else what it wrote, or how the
/// attempt ended.
pub proof fn law_what_went_wrong_with_node_is_told(check: NodeCheck)
    ensures
        ({
            let details = doctor::node_report(check).details;
            match check {
                NodeCheck::Ran { success, stdout, stderr } => {
                    &&& success ==> details is None
                    &&& !success && !reading::is_blank(stderr@) ==> details == Some(text::trim_of(stderr@))
                    &&& !success && reading::is_blank(stderr@) && !reading::is_blank(stdout@) ==> details == Some(
                        text::trim_of(stdout@),
                    )
                    &&& !success && reading::is_blank(stderr@) && reading::is_blank(stdout@) ==> details == Some(
                        "Node failed to start."@,
                    )
                },
                NodeCheck::NotFound => details == Some("Node not found on PATH."@),
                NodeCheck::Failed(error) => details == Some(error@),
                NodeCheck::TimedOut => details == Some("Timed out while checking Node."@),
            }
        }),
{
    if let NodeCheck::Ran { success, stdout, stderr } = check {
        text_laws::law_trimming_leaves_the_rest(stdout@);
        text_laws::law_trimming_leaves_the_rest(stderr@);
    }
}

/// A text, or nothing, as a value that was found.
pub open spec fn found_or_nothing(o: Option<Seq<char>>) -> Option<JsonView> {
    match o {
        Some(s) => Some(JsonView::Text(s)),
        None => Some(JsonView::Null),
    }
}

/// The report shows each of the things that were found, and the installation works where there is
/// a version and the server starts.
pub proof fn law_report_shows_what_was_found(
    bin: Option<Seq<char>>,
    version: Option<Seq<char>>,
    app_server_ok: bool,
    path_env: Option<Seq<char>>,
    node: NodeReportView,
)
    ensures
        ({
            let report = doctor::doctor_report(bin, version, app_server_ok, path_env, node);
            &&& report.get("ok"@) == Some(JsonView::Bool(version is Some && app_server_ok))
            &&& report.get("codexBin"@) == found_or_nothing(bin)
            &&& report.get("version"@) == found_or_nothing(version)
            &&& report.get("appServerOk"@) == Some(JsonView::Bool(app_server_ok))
            &&& app_server_ok ==> report.get("details"@) == Some(JsonView::Null)
            &&& !app_server_ok ==> report.get("details"@) == reading::found(
                "Failed to run `codex app-server --help`."@,
            )
            &&& report.get("path"@) == found_or_nothing(path_env)
            &&& report.get("nodeOk"@) == Some(JsonView::Bool(node.ok))
            &&& report.get("nodeVersion"@) == found_or_nothing(node.version)
            &&& report.get("nodeDetails"@) == found_or_nothing(node.details)
        }),
{
    broadcast use reading::group_reading;
    lemma_helper_names();
}

// ---------------------------------------------------------------------------
// Settings
// ---------------------------------------------------------------------------

/// The token of an account is what was set last, without the white space around it, and none where
/// nothing is left of it; other accounts keep theirs.
pub proof fn law_token_is_set_for_its_account(
    store: Map<Seq<char>, Seq<char>>,
    account: Seq<char>,
    token: Option<Seq<char>>,
    other: Seq<char>,
)
    ensures
        ({
            let after = settings::with_token(store, account, token);
            &&& after.contains_key(account) <==> (token matches Some(t) && !reading::is_blank(t))
            &&& after.contains_key(account) ==> (token matches Some(t) && after[account] == text::trim_of(t))
            &&& other != account ==> (after.contains_key(other) <==> store.contains_key(other))
            &&& other != account && store.contains_key(other) ==> after[other] == store[other]
        }),
{
    if let Some(t) = token {
        text_laws::law_trimming_leaves_the_rest(t);
    }
}

/// The token of the store goes before that of the file, which is then taken out of the file; a
/// token that only the file holds is handed to the store; and where the store cannot be read, the
/// settings have that of the file.
pub proof fn law_token_of_the_store_goes_first(in_file: Option<Seq<char>>, in_store: Seq<char>, error: Seq<char>)
    ensures
        settings::settings_read(in_file, Ok(Some(in_store))) == (ReadView::Done {
            token: Some(in_store),
            rewrite: in_file is Some,
        }),
        in_file matches Some(t) ==> settings::settings_read(in_file, Ok(None)) == (ReadView::Migrate { found: t }),
        in_file is None ==> settings::settings_read(in_file, Ok(None)) == (ReadView::Done {
            token: None,
            rewrite: false,
        }),
        settings::settings_read(in_file, Err(error)) == (ReadView::Done { token: in_file, rewrite: false }),
{
}

/// Settings keep the token that was handed to the store, and their file is written anew only where
/// the store said that it took it.
pub proof fn law_handed_token_is_kept(token: Seq<char>, outcome: Result<bool, Seq<char>>)
    ensures
        settings::handed_over(token, outcome) matches ReadView::Done { token: kept, rewrite } && kept == Some(token)
            && (rewrite <==> (outcome matches Ok(taken) && taken)),
{
}

/// A token that the store did not take stands in the file, without the white space around it.
pub proof fn law_token_that_was_not_taken_stands_in_the_file(token: Seq<char>, outcome: Result<bool, Seq<char>>)
    ensures
        ({
            let in_file = settings::file_token(Some(token), settings::was_stored(outcome));
            let taken = outcome matches Ok(b) && b;
            &&& taken ==> in_file is None
            &&& !taken && !reading::is_blank(token) ==> in_file == Some(text::trim_of(token))
            &&& !taken && reading::is_blank(token) ==> in_file is None
        }),
{
    text_laws::law_trimming_leaves_the_rest(token);
}

// ---------------------------------------------------------------------------
// Workspaces
// ---------------------------------------------------------------------------

proof fn lemma_by_id_holds(list: Seq<WorkspaceView>, id: Seq<char>)
    ensures
        workspaces::by_id(list).contains_key(id) ==> exists|i: int| 0 <= i < list.len() && (#[trigger] list[i]).id == id,
    decreases list.len(),
{
    if list.len() > 0 && list.last().id != id {
        lemma_by_id_holds(list.drop_last(), id);
        if workspaces::by_id(list).contains_key(id) {
            let i = choose|i: int| 0 <= i < list.drop_last().len() && (#[trigger] list.drop_last()[i]).id == id;
            assert(list[i].id == id);
        }
    } else if list.len() > 0 {
        assert(list[list.len() - 1].id == id);
    }
}

/// A workspace is found under its identifier, the last one where two have the same; nothing is found
/// under any other.
pub proof fn law_workspace_is_found_by_its_id(list: Seq<WorkspaceView>, i: int, id: Seq<char>)
    ensures
        0 <= i < list.len() && (forall|k: int| i < k < list.len() ==> (#[trigger] list[k]).id != list[i].id)
            ==> workspaces::by_id(list).contains_key(list[i].id) && workspaces::by_id(list)[list[i].id] == list[i],
        workspaces::by_id(list).contains_key(id) ==> exists|k: int| 0 <= k < list.len() && (#[trigger] list[k]).id == id,
    decreases list.len(),
{
    lemma_by_id_holds(list, id);
    if 0 <= i < list.len() - 1 {
        law_workspace_is_found_by_its_id(list.drop_last(), i, id);
        assert(list.drop_last()[i] == list[i]);
        assert(list[list.len() - 1] == list.last());
    }
}

/// A workspace comes with its parent, where that is known.
pub proof fn law_workspace_comes_with_its_parent(all: Map<Seq<char>, WorkspaceView>, id: Seq<char>)
    ensures
        match workspaces::workspace_and_parent(all, id) {
            Ok((w, parent)) => {
                &&& all.contains_key(id) && w == all[id]
                &&& parent is Some <==> (w.parent_id matches Some(p) && all.contains_key(p))
                &&& parent matches Some(found) ==> (w.parent_id matches Some(p) && found == all[p])
            },
            Err(e) => !all.contains_key(id) && e == "workspace not found"@,
        },
{
}

/// The hidden sessions of a workspace are its own; an unknown one has none.
pub proof fn law_hidden_sessions_are_those_of_the_workspace(all: Map<Seq<char>, WorkspaceView>, id: Seq<char>)
    ensures
        !all.contains_key(id) ==> workspaces::hidden_sessions(all, id).len() == 0,
        all.contains_key(id) ==> workspaces::hidden_sessions(all, id) == crate::threads::approval_words(
            all[id].hidden_session_ids,
        ),
{
}

/// Hiding a session changes the hidden ones of its workspace alone.
pub proof fn law_hiding_a_session_changes_nothing_else(
    all: Map<Seq<char>, WorkspaceView>,
    workspace_id: Seq<char>,
    thread_id: Seq<char>,
    other: Seq<char>,
)
    requires
        all.contains_key(workspace_id),
    ensures
        ({
            let after = workspaces::with_hidden_session(all, workspace_id, thread_id);
            &&& after.dom() == all.dom()
            &&& other != workspace_id && all.contains_key(other) ==> after[other] == all[other]
            &&& after[workspace_id].id == all[workspace_id].id
            &&& after[workspace_id].parent_id == all[workspace_id].parent_id
            &&& after[workspace_id].hidden_session_ids.take(all[workspace_id].hidden_session_ids.len() as int)
                == all[workspace_id].hidden_session_ids
            &&& after[workspace_id].hidden_session_ids.contains(thread_id)
        }),
{
    let after = workspaces::with_hidden_session(all, workspace_id, thread_id);
    law_hiding_keeps_the_others(all[workspace_id].hidden_session_ids, thread_id);
    assert(after.dom() =~= all.dom());
}

} // verus!
