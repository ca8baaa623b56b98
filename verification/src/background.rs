//! Prompts that run in the background: commit messages and the metadata of runs.

use vstd::prelude::*;
use vstd::string::*;

use crate::json;
use crate::json::{as_array_in, as_str_in, either, get_in, one, Json, JsonView};
use crate::json_text;
use crate::json_text::{debug_json, parse_json};
use crate::text;
use crate::text::{
    cat, cat3, chars_of, contains_text, empty, find_char, is_white_space, replace, rfind_char,
    starts_with, str_eq, str_or, string_of, strip_prefix, to_lowercase, trim, trim_some,
};
use crate::worktree_laws;

verus! {

// ---------------------------------------------------------------------------
// Commit messages
// ---------------------------------------------------------------------------

/// The prompt for a commit message where none is configured.
pub const DEFAULT_COMMIT_MESSAGE_PROMPT: &'static str =
    "Generate a concise git commit message for the following changes. Follow conventional commit format (e.g., feat:, fix:, refactor:, docs:, etc.). Keep the summary line under 72 characters. Only output the commit message, nothing else.\n\nChanges:\n{diff}";

/// The prompt for the commit message of a diff: the diff stands where the template has its
/// placeholder, or else behind the template.
pub open spec fn commit_message_prompt(diff: Seq<char>, template: Seq<char>) -> Seq<char> {
    let base = if text::trim_of(template).len() == 0 {
        DEFAULT_COMMIT_MESSAGE_PROMPT@
    } else {
        template
    };
    if text::text_from(base, "{diff}"@, 0) is Some {
        text::replaced_from(base, "{diff}"@, diff, 0)
    } else {
        base + "\n\nChanges:\n"@ + diff
    }
}

/// The prompt for the commit message of a diff.
pub fn build_commit_message_prompt(diff: &str, template: &str) -> (r: String)
    ensures
        r@ == commit_message_prompt(diff@, template@),
{
    let base: &str = if trim(template).is_empty() {
        DEFAULT_COMMIT_MESSAGE_PROMPT
    } else {
        template
    };
    if contains_text(base, "{diff}") {
        proof {
            reveal_strlit("{diff}");
        }
        replace(base, "{diff}", diff)
    } else {
        cat3(base, "\n\nChanges:\n", diff)
    }
}

/// The prompt for the commit message of a diff; an error where the diff shows no change.
pub open spec fn prompt_for_diff(diff: Seq<char>, template: Seq<char>) -> Result<Seq<char>, Seq<char>> {
    if text::trim_of(diff).len() == 0 {
        Err("No changes to generate commit message for"@)
    } else {
        Ok(commit_message_prompt(diff, template))
    }
}

/// The prompt for the commit message of a diff; an error where the diff shows no change.
pub fn build_commit_message_prompt_for_diff(diff: &str, template: &str) -> (r: Result<String, String>)
    ensures
        text::result_text(r) == prompt_for_diff(diff@, template@),
{
    if trim(diff).is_empty() {
        return Err("No changes to generate commit message for".to_owned());
    }
    Ok(build_commit_message_prompt(diff, template))
}

// ---------------------------------------------------------------------------
// Metadata of runs
// ---------------------------------------------------------------------------

/// What the prompt for a run's metadata says before the task.
pub const RUN_METADATA_PROMPT: &'static str =
    "You create concise run metadata for a coding task.\nReturn ONLY a JSON object with keys:\n- title: short, clear, 3-7 words, Title Case\n- worktreeName: lower-case, kebab-case slug prefixed with one of: feat/, fix/, chore/, test/, docs/, refactor/, perf/, build/, ci/, style/.\n\nChoose fix/ when the task is a bug fix, error, regression, crash, or cleanup. Use the closest match for chores/tests/docs/refactors/perf/build/ci/style. Otherwise use feat/.\n\nExamples:\n{\"title\":\"Fix Login Redirect Loop\",\"worktreeName\":\"fix/login-redirect-loop\"}\n{\"title\":\"Add Workspace Home View\",\"worktreeName\":\"feat/workspace-home\"}\n{\"title\":\"Update Lint Config\",\"worktreeName\":\"chore/update-lint-config\"}\n{\"title\":\"Add Coverage Tests\",\"worktreeName\":\"test/add-coverage-tests\"}\n\nTask:\n";

/// The prompt for the metadata of a run.
pub fn build_run_metadata_prompt(cleaned_prompt: &str) -> (r: String)
    ensures
        r@ == RUN_METADATA_PROMPT@ + cleaned_prompt@,
{
    cat(RUN_METADATA_PROMPT, cleaned_prompt)
}

/// The prompt for the metadata of a run; an error where the user's prompt is empty.
pub open spec fn metadata_prompt(prompt: Seq<char>) -> Result<Seq<char>, Seq<char>> {
    if text::trim_of(prompt).len() == 0 {
        Err("Prompt is required."@)
    } else {
        Ok(RUN_METADATA_PROMPT@ + text::trim_of(prompt))
    }
}

/// The prompt for the metadata of a run; an error where the user's prompt is empty.
pub fn run_metadata_prompt(prompt: &str) -> (r: Result<String, String>)
    ensures
        text::result_text(r) == metadata_prompt(prompt@),
{
    let cleaned: &str = trim(prompt);
    if cleaned.is_empty() {
        return Err("Prompt is required.".to_owned());
    }
    Ok(build_run_metadata_prompt(cleaned))
}

/// The part of a text from its first opening brace to its last closing one.
pub open spec fn braced(raw: Seq<char>) -> Option<Seq<char>> {
    match (text::char_from(raw, '{', 0), text::char_before(raw, '}', raw.len() as int)) {
        (Some(start), Some(end)) => if end <= start {
            None
        } else {
            Some(raw.subrange(start, end + 1))
        },
        _ => None,
    }
}

/// The part of a text from its first opening brace to its last closing one.
pub fn find_braced(raw: &str) -> (r: Option<String>)
    ensures
        text::opt_string(r) == braced(raw@),
{
    let v: Vec<char> = chars_of(raw);
    match (find_char(&v, '{'), rfind_char(&v, '}')) {
        (Some(start), Some(end)) => if end <= start {
            None
        } else {
            let len: usize = v.len();
            assert(end + 1 <= len);
            Some(string_of(&v, start, end + 1))
        },
        _ => None,
    }
}

/// What is read from the braces in a text.
pub open spec fn braced_json(raw: Seq<char>) -> Option<JsonView> {
    match braced(raw) {
        Some(s) => json_text::parsed_tree(s),
        None => None,
    }
}

/// The JSON object in a text, where there is one.
pub fn extract_json_value(raw: &str) -> (r: Option<Json>)
    ensures
        json::opt_json_owned(r) == braced_json(raw@),
{
    match find_braced(raw) {
        Some(s) => parse_json(s.as_str()),
        None => None,
    }
}

/// Whether a character is an ASCII letter or digit.
pub open spec fn is_ascii_alphanumeric(c: char) -> bool {
    'a' <= c <= 'z' || 'A' <= c <= 'Z' || '0' <= c <= '9'
}

/// The text with runs of dashes, underscores and white space made one dash, and with everything
/// dropped that is neither of these nor an ASCII letter, an ASCII digit or a slash. With it comes
/// whether the last character that was not dropped belongs to such a run.
pub open spec fn squeezed(s: Seq<char>) -> (Seq<char>, bool)
    decreases s.len(),
{
    if s.len() == 0 {
        (Seq::empty(), false)
    } else {
        let (before, dash) = squeezed(s.drop_last());
        let c = s.last();
        if is_ascii_alphanumeric(c) || c == '/' {
            (before.push(c), false)
        } else if c == '-' || text::white_space(c) || c == '_' {
            if dash {
                (before, true)
            } else {
                (before.push('-'), true)
            }
        } else {
            (before, dash)
        }
    }
}

/// The text without the dashes and slashes at its end.
pub open spec fn without_tail(s: Seq<char>) -> Seq<char>
    decreases s.len(),
{
    if s.len() > 0 && (s.last() == '-' || s.last() == '/') {
        without_tail(s.drop_last())
    } else {
        s
    }
}

/// The text without the slashes at its start.
pub open spec fn without_slashes(s: Seq<char>) -> Seq<char>
    decreases s.len(),
{
    if s.len() > 0 && s[0] == '/' {
        without_slashes(s.drop_first())
    } else {
        s
    }
}

/// The kinds of work that a worktree's name starts with, in the order in which they are tried.
pub open spec fn work_kinds() -> Seq<Seq<char>> {
    seq![
        "feat"@,
        "fix"@,
        "chore"@,
        "test"@,
        "docs"@,
        "refactor"@,
        "perf"@,
        "build"@,
        "ci"@,
        "style"@,
    ]
}

/// The index of the first kind of work, from `from` on, that the text starts with when `mark`
/// follows it.
pub open spec fn kind_from(s: Seq<char>, kinds: Seq<Seq<char>>, mark: Seq<char>, from: int) -> Option<int>
    decreases kinds.len() - from,
{
    if from < 0 || from >= kinds.len() {
        None
    } else if text::has_prefix(s, kinds[from] + mark) {
        Some(from)
    } else {
        kind_from(s, kinds, mark, from + 1)
    }
}

/// The name with a kind of work in front: it stays as it is where it starts with one and a slash;
/// a dash behind the kind becomes a slash; and `feat` stands in for a missing kind.
pub open spec fn with_work_kind(s: Seq<char>) -> Seq<char> {
    let kinds = work_kinds();
    if kind_from(s, kinds, "/"@, 0) is Some {
        s
    } else {
        match kind_from(s, kinds, "-"@, 0) {
            Some(i) => kinds[i] + "/"@ + s.skip((kinds[i] + "-"@).len() as int),
            None => "feat/"@ + without_slashes(s),
        }
    }
}

/// The name of a worktree that is made of a text in small letters.
pub open spec fn worktree_name(lowered: Seq<char>) -> Seq<char> {
    with_work_kind(without_tail(squeezed(lowered).0))
}

fn list_work_kinds() -> (r: Vec<&'static str>)
    ensures
        r@.len() == work_kinds().len(),
        forall|i: int| 0 <= i < r@.len() ==> (#[trigger] r@[i])@ == work_kinds()[i],
{
    vec!["feat", "fix", "chore", "test", "docs", "refactor", "perf", "build", "ci", "style"]
}

fn find_kind(s: &str, kinds: &Vec<&'static str>, mark: &str) -> (r: Option<usize>)
    requires
        kinds@.len() == work_kinds().len(),
        forall|i: int| 0 <= i < kinds@.len() ==> (#[trigger] kinds@[i])@ == work_kinds()[i],
    ensures
        match r {
            Some(i) => i < kinds@.len() && kind_from(s@, work_kinds(), mark@, 0) == Some(i as int),
            None => kind_from(s@, work_kinds(), mark@, 0) is None,
        },
{
    let mut i: usize = 0;
    while i < kinds.len()
        invariant
            i <= kinds@.len(),
            kinds@.len() == work_kinds().len(),
            forall|i: int| 0 <= i < kinds@.len() ==> (#[trigger] kinds@[i])@ == work_kinds()[i],
            kind_from(s@, work_kinds(), mark@, 0) == kind_from(s@, work_kinds(), mark@, i as int),
        decreases kinds@.len() - i,
    {
        if starts_with(s, cat(kinds[i], mark).as_str()) {
            return Some(i);
        }
        i = i + 1;
    }
    None
}

fn squeeze(v: &Vec<char>) -> (r: Vec<char>)
    ensures
        r@ == squeezed(v@).0,
{
    let mut out: Vec<char> = Vec::new();
    let mut dash: bool = false;
    let mut i: usize = 0;
    while i < v.len()
        invariant
            i <= v@.len(),
            (out@, dash) == squeezed(v@.take(i as int)),
        decreases v@.len() - i,
    {
        let c: char = v[i];
        proof {
            assert(v@.take(i + 1).drop_last() =~= v@.take(i as int));
            assert(v@.take(i + 1).last() == c);
        }
        if ('a' <= c && c <= 'z') || ('A' <= c && c <= 'Z') || ('0' <= c && c <= '9') || c == '/' {
            dash = false;
            out.push(c);
        } else if c == '-' || is_white_space(c) || c == '_' {
            if !dash {
                out.push('-');
            }
            dash = true;
        }
        i = i + 1;
    }
    assert(v@.take(v@.len() as int) =~= v@);
    out
}

/// The name of a worktree that is made of a text in small letters.
pub fn clean_worktree_name(lowered: &str) -> (r: String)
    ensures
        r@ == worktree_name(lowered@),
{
    let v: Vec<char> = squeeze(&chars_of(lowered));
    let mut hi: usize = v.len();
    assert(v@.take(hi as int) =~= v@);
    while hi > 0 && (v[hi - 1] == '-' || v[hi - 1] == '/')
        invariant
            hi <= v@.len(),
            without_tail(v@) == without_tail(v@.take(hi as int)),
        decreases hi,
    {
        assert(v@.take(hi as int).drop_last() =~= v@.take(hi - 1));
        hi = hi - 1;
    }
    let cleaned: String = string_of(&v, 0, hi);
    assert(cleaned@ =~= v@.take(hi as int));
    let name: &str = cleaned.as_str();
    let kinds: Vec<&'static str> = list_work_kinds();
    if find_kind(name, &kinds, "/").is_some() {
        return cleaned;
    }
    match find_kind(name, &kinds, "-") {
        Some(i) => {
            let dashed: String = cat(kinds[i], "-");
            let rest: &str = str_or(strip_prefix(name, dashed.as_str()), "");
            proof {
                lemma_kind_from(cleaned@, work_kinds(), "-"@, 0);
            }
            cat3(kinds[i], "/", rest)
        },
        None => {
            let mut lo: usize = 0;
            assert(cleaned@.skip(0) =~= cleaned@);
            while lo < hi && v[lo] == '/'
                invariant
                    lo <= hi <= v@.len(),
                    cleaned@ == v@.take(hi as int),
                    without_slashes(cleaned@) == without_slashes(cleaned@.skip(lo as int)),
                decreases hi - lo,
            {
                assert(cleaned@.skip(lo as int).drop_first() =~= cleaned@.skip(lo + 1));
                lo = lo + 1;
            }
            let rest: String = string_of(&v, lo, hi);
            assert(rest@ =~= cleaned@.skip(lo as int));
            cat("feat/", rest.as_str())
        },
    }
}

pub proof fn lemma_kind_from(s: Seq<char>, kinds: Seq<Seq<char>>, mark: Seq<char>, from: int)
    ensures
        kind_from(s, kinds, mark, from) matches Some(i) ==> from <= i < kinds.len() && text::has_prefix(
            s,
            kinds[i] + mark,
        ),
    decreases kinds.len() - from,
{
    if 0 <= from < kinds.len() && !text::has_prefix(s, kinds[from] + mark) {
        lemma_kind_from(s, kinds, mark, from + 1);
    }
}

/// The name of a worktree that a run's metadata asks for.
pub open spec fn sanitized_worktree_name(value: Seq<char>) -> Seq<char> {
    worktree_name(text::lowercase_text(text::trim_of(value)))
}

/// The name of a worktree that a run's metadata asks for. It is a clean one, where the text holds
/// an ASCII letter or digit in small letters, and a clean name stays as it is.
pub fn sanitize_run_worktree_name(value: &str) -> (r: String)
    ensures
        r@ == sanitized_worktree_name(value@),
        worktree_laws::is_slug(r@),
        worktree_laws::holds_alphanumeric(text::lowercase_text(text::trim_of(value@)))
            ==> worktree_laws::is_worktree_name(r@),
        worktree_laws::is_worktree_name(value@) ==> r@ == value@,
{
    let lowered: String = to_lowercase(trim(value));
    proof {
        worktree_laws::law_worktree_name_is_a_slug(lowered@);
        worktree_laws::law_worktree_name_is_clean(lowered@);
        if worktree_laws::is_worktree_name(value@) {
            worktree_laws::lemma_name_is_plain(value@);
            worktree_laws::law_clean_name_stays(value@);
        }
    }
    clean_worktree_name(lowered.as_str())
}

/// The metadata of a run: a title and the name of its worktree.
pub open spec fn run_metadata(value: Option<JsonView>) -> Result<JsonView, Seq<char>> {
    match value {
        Some(v) => match text::trimmed_some(v.get_str("title"@)) {
            Some(title) => match json::as_str_of(
                json::either_of(v.get("worktreeName"@), v.get("worktree_name"@)),
            ) {
                Some(name) => if sanitized_worktree_name(name).len() > 0 {
                    Ok(
                        json::obj().and("title"@, JsonView::Text(title)).and(
                            "worktreeName"@,
                            JsonView::Text(sanitized_worktree_name(name)),
                        ),
                    )
                } else {
                    Err("Missing worktree name in metadata"@)
                },
                None => Err("Missing worktree name in metadata"@),
            },
            None => Err("Missing title in metadata"@),
        },
        None => Err("Failed to parse metadata JSON"@),
    }
}

/// The metadata of a run, given the JSON object in the answer.
pub fn run_metadata_from_value(value: Option<Json>) -> (r: Result<Json, String>)
    ensures
        json::result_json(r) == run_metadata(json::opt_json_owned(value)),
{
    let v = match &value {
        Some(v) => v,
        None => return Err("Failed to parse metadata JSON".to_owned()),
    };
    let title: &str = match trim_some(v.get_str("title")) {
        Some(title) => title,
        None => return Err("Missing title in metadata".to_owned()),
    };
    match as_str_in(either(v.get("worktreeName"), v.get("worktree_name"))) {
        Some(name) => {
            let name: String = sanitize_run_worktree_name(name);
            if name.as_str().is_empty() {
                return Err("Missing worktree name in metadata".to_owned());
            }
            Ok(Json::obj().and("title", Json::text(title)).and("worktreeName", Json::text(name.as_str())))
        },
        None => Err("Missing worktree name in metadata".to_owned()),
    }
}

/// The metadata of a run, read from the answer to its prompt.
pub open spec fn metadata_of_answer(raw: Seq<char>) -> Result<JsonView, Seq<char>> {
    if text::trim_of(raw).len() == 0 {
        Err("No metadata was generated"@)
    } else {
        run_metadata(braced_json(text::trim_of(raw)))
    }
}

/// The metadata of a run, read from the answer to its prompt.
pub fn parse_run_metadata_value(raw: &str) -> (r: Result<Json, String>)
    ensures
        json::result_json(r) == metadata_of_answer(raw@),
{
    let trimmed: &str = trim(raw);
    if trimmed.is_empty() {
        return Err("No metadata was generated".to_owned());
    }
    run_metadata_from_value(extract_json_value(trimmed))
}

// ---------------------------------------------------------------------------
// The helper session
// ---------------------------------------------------------------------------

/// The identifier of a new session, from the answer to the request for it, given the debug
/// notation of that answer.
pub open spec fn helper_session_id(response: JsonView, notation: Seq<char>) -> Result<Seq<char>, Seq<char>> {
    match response.get_str("id"@) {
        Some(id) => Ok(id),
        None => Err("Failed to get session id from POST /session response: "@ + notation),
    }
}

/// The identifier of a new session, given the debug notation of the answer.
pub fn choose_helper_session_id(response: &Json, notation: String) -> (r: Result<String, String>)
    ensures
        text::result_text(r) == helper_session_id(response@, notation@),
{
    match response.get_str("id") {
        Some(id) => Ok(id.to_owned()),
        None => Err(cat("Failed to get session id from POST /session response: ", notation.as_str())),
    }
}

/// The identifier of a new session, from the answer to the request for it.
pub fn read_helper_session_id(response: &Json) -> (r: Result<String, String>)
    ensures
        text::result_text(r) == helper_session_id(
            response@,
            json_text::debug_text(json_text::canonical(response@)),
        ),
{
    choose_helper_session_id(response, debug_json(response))
}

/// A path of a session.
pub open spec fn session_path(thread_id: Seq<char>, what: Seq<char>) -> Seq<char> {
    "/session/"@ + thread_id + what
}

/// The path of a session's messages.
pub open spec fn message_path_of(thread_id: Seq<char>) -> Seq<char> {
    session_path(thread_id, "/message"@)
}

/// The path to which a session's prompts are sent.
pub open spec fn prompt_path_of(thread_id: Seq<char>) -> Seq<char> {
    session_path(thread_id, "/prompt_async"@)
}

/// The path of a session's messages.
pub fn message_path(thread_id: &str) -> (r: String)
    ensures
        r@ == message_path_of(thread_id@),
{
    cat3("/session/", thread_id, "/message")
}

/// The path to which a session's prompts are sent.
pub fn prompt_async_path(thread_id: &str) -> (r: String)
    ensures
        r@ == prompt_path_of(thread_id@),
{
    cat3("/session/", thread_id, "/prompt_async")
}

/// The body of a background prompt.
pub open spec fn background_body(prompt: Seq<char>, model: Option<JsonView>) -> JsonView {
    let body = json::obj().and(
        "parts"@,
        JsonView::Array(
            seq![json::obj().and("type"@, JsonView::Text("text"@)).and("text"@, JsonView::Text(prompt))],
        ),
    );
    match model {
        Some(m) => body.with("model"@, m),
        None => body,
    }
}

/// The body of a background prompt.
pub fn build_background_body(prompt: &str, model: Option<Json>) -> (r: Json)
    ensures
        r@ == background_body(prompt@, json::opt_json_owned(model)),
{
    let body = Json::obj().and(
        "parts",
        Json::array(one(Json::obj().and("type", Json::text("text")).and("text", Json::text(prompt)))),
    );
    match model {
        Some(m) => body.with("model", m),
        None => body,
    }
}

/// The identifiers with one more, where it is not among them.
pub open spec fn with_hidden(ids: Seq<Seq<char>>, id: Seq<char>) -> Seq<Seq<char>> {
    if ids.contains(id) {
        ids
    } else {
        ids.push(id)
    }
}

/// Adds a session to the hidden ones, where it is not among them.
pub fn remember_hidden(hidden_session_ids: &mut Vec<String>, thread_id: &str)
    ensures
        text::texts(final(hidden_session_ids)@) == with_hidden(
            text::texts(old(hidden_session_ids)@),
            thread_id@,
        ),
{
    let ghost before = text::texts(hidden_session_ids@);
    let mut i: usize = 0;
    while i < hidden_session_ids.len()
        invariant
            i <= hidden_session_ids@.len(),
            before == text::texts(hidden_session_ids@),
            hidden_session_ids@ == old(hidden_session_ids)@,
            forall|k: int| 0 <= k < i ==> #[trigger] before[k] != thread_id@,
        decreases hidden_session_ids@.len() - i,
    {
        if str_eq(hidden_session_ids[i].as_str(), thread_id) {
            assert(before[i as int] == thread_id@);
            return;
        }
        i = i + 1;
    }
    assert(!before.contains(thread_id@));
    hidden_session_ids.push(thread_id.to_owned());
    assert(text::texts(hidden_session_ids@) =~= before.push(thread_id@));
}

// ---------------------------------------------------------------------------
// The answer
// ---------------------------------------------------------------------------

/// The text that a part of an answer adds.
pub open spec fn part_text(part: JsonView) -> Seq<char> {
    if part.get_str("type"@) == Some("text"@) {
        text::text_or(part.get_str("text"@), Seq::empty())
    } else {
        Seq::empty()
    }
}

/// The texts of the parts of an answer, one behind the other.
pub open spec fn parts_text(parts: Seq<JsonView>) -> Seq<char>
    decreases parts.len(),
{
    if parts.len() == 0 {
        Seq::empty()
    } else {
        parts_text(parts.drop_last()) + part_text(parts.last())
    }
}

/// The text of an answer.
pub open spec fn response_text(response: JsonView) -> Result<Seq<char>, Seq<char>> {
    match json::as_array_of(response.get("parts"@)) {
        Some(parts) => Ok(text::trim_of(parts_text(parts))),
        None => Err("Failed to parse helper response parts"@),
    }
}

fn collect_parts_text(parts: &Vec<Json>) -> (r: String)
    ensures
        r@ == parts_text(json::json_views(parts@)),
{
    let mut out: String = empty();
    let mut i: usize = 0;
    let ghost all = json::json_views(parts@);
    while i < parts.len()
        invariant
            i <= parts@.len(),
            all == json::json_views(parts@),
            out@ == parts_text(all.take(i as int)),
        decreases parts@.len() - i,
    {
        proof {
            assert(all.take(i + 1).drop_last() =~= all.take(i as int));
            assert(all.take(i + 1).last() == all[i as int]);
        }
        let part = &parts[i];
        let ghost before = out@;
        let is_text: bool = match part.get_str("type") {
            Some(kind) => str_eq(kind, "text"),
            None => false,
        };
        if is_text {
            if let Some(s) = part.get_str("text") {
                out.append(s);
            }
        }
        assert(out@ =~= before + part_text(all[i as int]));
        i = i + 1;
    }
    assert(all.take(all.len() as int) =~= all);
    out
}

/// The text of an answer.
pub fn extract_text_from_message_response(response: &Json) -> (r: Result<String, String>)
    ensures
        text::result_text(r) == response_text(response@),
{
    match as_array_in(response.get("parts")) {
        Some(parts) => {
            let all: String = collect_parts_text(parts);
            Ok(trim(all.as_str()).to_owned())
        },
        None => Err("Failed to parse helper response parts".to_owned()),
    }
}

/// The text of an error in an answer.
pub open spec fn helper_error_text(error: JsonView) -> Seq<char> {
    text::text_or(
        json::as_str_of(
            json::either_of(
                json::either_of(
                    json::either_of(json::get_of(error.get("data"@), "message"@), error.get("message"@)),
                    error.get("error"@),
                ),
                error.get("name"@),
            ),
        ),
        "Unknown error during helper prompt"@,
    )
}

/// What a message of the assistant tells of a background prompt: an error, its text once it is
/// complete, or nothing yet.
pub open spec fn assistant_result(entry: JsonView, info: JsonView) -> Option<Result<Seq<char>, Seq<char>>> {
    match info.get("error"@) {
        Some(error) => Some(Err(helper_error_text(error))),
        None => if json::get_of(info.get("time"@), "completed"@) is None {
            None
        } else {
            match response_text(entry) {
                Ok(s) => if s.len() > 0 {
                    Some(Ok(s))
                } else {
                    Some(Err("No response was generated"@))
                },
                Err(_) => Some(Err("No response was generated"@)),
            }
        },
    }
}

/// What the messages tell of a background prompt: the last message of the assistant counts, and
/// nothing is known where a message behind it says nothing of itself.
pub open spec fn messages_result(entries: Seq<JsonView>) -> Option<Result<Seq<char>, Seq<char>>>
    decreases entries.len(),
{
    if entries.len() == 0 {
        None
    } else {
        match entries.last().get("info"@) {
            Some(info) => if info.get_str("role"@) == Some("assistant"@) {
                assistant_result(entries.last(), info)
            } else {
                messages_result(entries.drop_last())
            },
            None => None,
        }
    }
}

/// What the list of messages tells of a background prompt.
pub open spec fn background_result(messages: JsonView) -> Option<Result<Seq<char>, Seq<char>>> {
    match messages.as_array() {
        Some(entries) => messages_result(entries),
        None => None,
    }
}

pub open spec fn opt_result(o: Option<Result<String, String>>) -> Option<Result<Seq<char>, Seq<char>>> {
    match o {
        Some(r) => Some(text::result_text(r)),
        None => None,
    }
}

fn read_assistant_result(entry: &Json, info: &Json) -> (r: Option<Result<String, String>>)
    ensures
        opt_result(r) == assistant_result(entry@, info@),
{
    if let Some(error) = info.get("error") {
        let message: &str = str_or(
            as_str_in(
                either(
                    either(
                        either(get_in(error.get("data"), "message"), error.get("message")),
                        error.get("error"),
                    ),
                    error.get("name"),
                ),
            ),
            "Unknown error during helper prompt",
        );
        return Some(Err(message.to_owned()));
    }
    if get_in(info.get("time"), "completed").is_none() {
        return None;
    }
    match extract_text_from_message_response(entry) {
        Ok(s) => if !s.as_str().is_empty() {
            Some(Ok(s))
        } else {
            Some(Err("No response was generated".to_owned()))
        },
        Err(_) => Some(Err("No response was generated".to_owned())),
    }
}

/// What the list of messages tells of a background prompt; nothing where it is not over.
pub fn extract_background_prompt_result_from_messages(messages: &Json) -> (r: Option<Result<String, String>>)
    ensures
        opt_result(r) == background_result(messages@),
{
    let entries = match messages.as_array() {
        Some(entries) => entries,
        None => return None,
    };
    let mut n: usize = entries.len();
    let ghost all = json::json_views(entries@);
    assert(all.take(n as int) =~= all);
    while n > 0
        invariant
            n <= entries@.len(),
            all == json::json_views(entries@),
            messages_result(all) == messages_result(all.take(n as int)),
            background_result(messages@) == messages_result(all),
        decreases n,
    {
        proof {
            assert(all.take(n as int).drop_last() =~= all.take(n - 1));
            assert(all.take(n as int).last() == all[n - 1]);
        }
        let entry = &entries[n - 1];
        let info = match entry.get("info") {
            Some(info) => info,
            None => return None,
        };
        let by_assistant: bool = match info.get_str("role") {
            Some(role) => str_eq(role, "assistant"),
            None => false,
        };
        if by_assistant {
            return read_assistant_result(entry, info);
        }
        n = n - 1;
    }
    None
}

/// How many times in a row the session may be seen idle without an answer.
pub const IDLE_POLLS: usize = 4;

/// What follows from one look at a background prompt.
pub enum PollStep {
    /// It is over.
    Over(Result<String, String>),
    /// It is looked at again; the session was seen idle so many times in a row.
    Again(usize),
}

/// What follows from one look at a background prompt, as a mathematical value.
pub enum PollView {
    Over(Result<Seq<char>, Seq<char>>),
    Again(nat),
}

impl View for PollStep {
    type V = PollView;

    open spec fn view(&self) -> PollView {
        match self {
            PollStep::Over(r) => PollView::Over(text::result_text(*r)),
            PollStep::Again(n) => PollView::Again(*n as nat),
        }
    }
}

/// Whether the status of a session says that it is at work.
pub open spec fn is_working(statuses: JsonView, thread_id: Seq<char>) -> bool {
    let status = json::as_str_of(json::get_of(statuses.get(thread_id), "type"@));
    status == Some("busy"@) || status == Some("retry"@)
}

/// What follows from one look at a background prompt: an answer ends it, and so does a session
/// that was seen idle too many times in a row.
pub open spec fn poll_step(
    idle_polls: nat,
    statuses: JsonView,
    thread_id: Seq<char>,
    messages: JsonView,
) -> PollView {
    let idle = if is_working(statuses, thread_id) {
        0
    } else {
        idle_polls + 1
    };
    match background_result(messages) {
        Some(r) => PollView::Over(r),
        None => if idle >= IDLE_POLLS {
            PollView::Over(Err("No response was generated"@))
        } else {
            PollView::Again(idle)
        },
    }
}

/// Decides what follows from one look at a background prompt.
pub fn poll_background_prompt(
    idle_polls: usize,
    statuses: &Json,
    thread_id: &str,
    messages: &Json,
) -> (r: PollStep)
    requires
        idle_polls < usize::MAX,
    ensures
        r@ == poll_step(idle_polls as nat, statuses@, thread_id@, messages@),
{
    if let Some(result) = extract_background_prompt_result_from_messages(messages) {
        return PollStep::Over(result);
    }
    let working: bool = match as_str_in(get_in(statuses.get(thread_id), "type")) {
        Some(status) => str_eq(status, "busy") || str_eq(status, "retry"),
        None => false,
    };
    let idle: usize = if working {
        0
    } else {
        idle_polls + 1
    };
    if idle >= IDLE_POLLS {
        PollStep::Over(Err("No response was generated".to_owned()))
    } else {
        PollStep::Again(idle)
    }
}

/// The looks at a background prompt stay countable: a further look always follows fewer idle ones
/// than are allowed.
pub proof fn law_polling_is_bounded(idle_polls: nat, statuses: JsonView, thread_id: Seq<char>, messages: JsonView)
    ensures
        poll_step(idle_polls, statuses, thread_id, messages) matches PollView::Again(n) ==> n < IDLE_POLLS,
        !is_working(statuses, thread_id) && idle_polls + 1 >= IDLE_POLLS ==> poll_step(
            idle_polls,
            statuses,
            thread_id,
            messages,
        ) is Over,
{
}

} // verus!
