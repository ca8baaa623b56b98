//! Threads and what belongs to them: lists, reviews, agents, servers, skills and answers.

use vstd::prelude::*;
use vstd::string::*;

use crate::event_translator;
use crate::event_translator::{build_permission_response, parse_u64, session_updated_at_from_record};
use crate::json;
use crate::json::{as_array_in, as_str_in, either, get_in, none, one, push_json, Json, JsonView};
use crate::models;
use crate::models::collect_entry_keys;
use crate::session_state::{SessionTranslationState, StateView};
use crate::sort;
use crate::sort::{order_by_numbers, order_by_texts, reorder};
use crate::stream_laws;
use crate::text;
use crate::text::{
    cat, cat3, char_to_uppercase, chars_of, empty, eq_ignore_ascii_case, split_once_char, str_eq, str_or,
    string_of, trim, trim_some,
};

verus! {

// ---------------------------------------------------------------------------
// Lists of threads
// ---------------------------------------------------------------------------

/// Whether a list of threads is to show the hidden ones too: only where everything is asked for.
pub open spec fn wants_hidden(sort_key: Option<Seq<char>>) -> bool {
    match sort_key {
        Some(k) => text::ascii_lowered(text::trim_of(k)) == text::ascii_lowered("all"@),
        None => false,
    }
}

/// Whether a list of threads is to show the hidden ones too.
pub fn should_include_hidden_sessions(sort_key: &Option<String>) -> (r: bool)
    ensures
        r == wants_hidden(text::opt_string(*sort_key)),
{
    match sort_key {
        Some(k) => eq_ignore_ascii_case(trim(k.as_str()), "all"),
        None => false,
    }
}

/// Whether a session was archived.
pub open spec fn is_archived(session: JsonView) -> bool {
    event_translator::count_of(json::get_of(session.get("time"@), "archived"@)) is Some
}

/// Whether a session was archived.
pub fn session_is_archived(session: &Json) -> (r: bool)
    ensures
        r == is_archived(session@),
{
    parse_u64(get_in(session.get("time"), "archived")).is_some()
}

/// The string, where it is there and not empty.
pub open spec fn non_empty(o: Option<Seq<char>>) -> Option<Seq<char>> {
    match o {
        Some(s) => if s.len() > 0 {
            Some(s)
        } else {
            None
        },
        None => None,
    }
}

/// The string, where it is there and not empty.
pub fn filled<'a>(o: Option<&'a str>) -> (r: Option<&'a str>)
    ensures
        text::opt_text(r) == non_empty(text::opt_text(o)),
{
    match o {
        Some(s) => if s.is_empty() {
            None
        } else {
            Some(s)
        },
        None => None,
    }
}

/// When a session was made; where its record does not tell, when it was changed last.
pub open spec fn created_or_updated(session: JsonView) -> JsonView {
    let time = session.get("time"@);
    let created = json::either_of(
        json::either_of(
            json::either_of(
                json::either_of(session.get("createdAt"@), session.get("created_at"@)),
                json::get_of(time, "created"@),
            ),
            json::get_of(time, "createdAt"@),
        ),
        json::get_of(time, "created_at"@),
    );
    match created {
        Some(c) => c,
        None => event_translator::session_updated_at_of(session),
    }
}

fn read_created_or_updated(session: &Json) -> (r: Json)
    ensures
        r@ == created_or_updated(session@),
{
    let time = session.get("time");
    let created = either(
        either(
            either(
                either(session.get("createdAt"), session.get("created_at")),
                get_in(time, "created"),
            ),
            get_in(time, "createdAt"),
        ),
        get_in(time, "created_at"),
    );
    match created {
        Some(c) => c.clone(),
        None => session_updated_at_from_record(session),
    }
}

/// The entry of a session in a list of threads; nothing where it has no identifier.
pub open spec fn thread_entry(session: JsonView) -> Option<JsonView> {
    match non_empty(session.get_str("id"@)) {
        Some(id) => {
            let title = text::text_or(session.get_str("title"@), ""@);
            let directory = text::text_or(session.get_str("directory"@), ""@);
            let parent = non_empty(
                json::as_str_of(
                    json::either_of(
                        json::either_of(session.get("parentID"@), session.get("parentId"@)),
                        session.get("parent_id"@),
                    ),
                ),
            );
            let entry = json::obj().and("id"@, JsonView::Text(id)).and("cwd"@, JsonView::Text(directory)).and(
                "name"@,
                JsonView::Text(title),
            ).and("preview"@, JsonView::Text(title)).and(
                "updatedAt"@,
                event_translator::session_updated_at_of(session),
            ).and("createdAt"@, created_or_updated(session));
            Some(
                match parent {
                    Some(p) => entry.with("parentId"@, JsonView::Text(p)),
                    None => entry,
                },
            )
        },
        None => None,
    }
}

/// The entry of a session in a list of threads; nothing where it has no identifier.
pub fn session_to_thread_entry(session: &Json) -> (r: Option<Json>)
    ensures
        json::opt_json_owned(r) == thread_entry(session@),
{
    let id: &str = match filled(session.get_str("id")) {
        Some(id) => id,
        None => return None,
    };
    let title: &str = str_or(session.get_str("title"), "");
    let directory: &str = str_or(session.get_str("directory"), "");
    let parent: Option<&str> = filled(
        as_str_in(either(either(session.get("parentID"), session.get("parentId")), session.get("parent_id"))),
    );
    let entry = Json::obj().and("id", Json::text(id)).and("cwd", Json::text(directory)).and(
        "name",
        Json::text(title),
    ).and("preview", Json::text(title)).and("updatedAt", session_updated_at_from_record(session)).and(
        "createdAt",
        read_created_or_updated(session),
    );
    match parent {
        Some(p) => Some(entry.with("parentId", Json::text(p))),
        None => Some(entry),
    }
}

/// The thread that an answer shows: the session's entry, or, where there is none, its identifier.
pub open spec fn result_thread(thread_id: Seq<char>, session_details: Option<JsonView>) -> JsonView {
    let entry = match session_details {
        Some(details) => thread_entry(details),
        None => None,
    };
    match entry {
        Some(e) => e,
        None => json::obj().and("id"@, JsonView::Text(thread_id)),
    }
}

/// The thread that an answer shows.
pub fn resume_thread_result_thread(thread_id: &str, session_details: Option<&Json>) -> (r: Json)
    ensures
        r@ == result_thread(thread_id@, json::opt_json(session_details)),
{
    let entry: Option<Json> = match session_details {
        Some(details) => session_to_thread_entry(details),
        None => None,
    };
    match entry {
        Some(e) => e,
        None => Json::obj().and("id", Json::text(thread_id)),
    }
}

/// An answer that shows a thread.
pub open spec fn thread_response(thread: JsonView) -> JsonView {
    json::obj().and("result"@, json::obj().and("thread"@, thread))
}

/// An answer that shows a thread.
pub fn build_thread_response(thread: Json) -> (r: Json)
    ensures
        r@ == thread_response(thread@),
{
    Json::obj().and("result", Json::obj().and("thread", thread))
}

/// A new session: it becomes the active one, where it has an identifier.
pub open spec fn session_started(s: StateView, response: JsonView) -> StateView {
    event_translator::entered(s, response.get_str("id"@))
}

/// The answer that shows a new session.
pub open spec fn started_response(response: JsonView) -> JsonView {
    thread_response(json::obj().and("id"@, JsonView::Text(text::text_or(response.get_str("id"@), ""@))))
}

/// Takes note of a new session and gives the answer that shows it.
pub fn start_session(state: &mut SessionTranslationState, response: &Json) -> (r: Json)
    ensures
        final(state)@ == session_started(old(state)@, response@),
        r@ == started_response(response@),
{
    let found: Option<&str> = response.get_str("id");
    if let Some(id) = found {
        if !id.is_empty() {
            state.session_id = id.to_owned();
        }
    }
    build_thread_response(Json::obj().and("id", Json::text(str_or(found, ""))))
}

/// The answer that shows a session made from another one.
pub open spec fn fork_response(response: JsonView) -> JsonView {
    thread_response(
        match thread_entry(response) {
            Some(e) => e,
            None => json::obj().and("id"@, JsonView::Text(text::text_or(response.get_str("id"@), ""@))),
        },
    )
}

/// The answer that shows a session made from another one.
pub fn build_fork_response(response: &Json) -> (r: Json)
    ensures
        r@ == fork_response(response@),
{
    match session_to_thread_entry(response) {
        Some(e) => build_thread_response(e),
        None => build_thread_response(
            Json::obj().and("id", Json::text(str_or(response.get_str("id"), ""))),
        ),
    }
}

/// Whether a session is shown in a list: hidden and archived ones are not, unless the hidden ones
/// are asked for.
pub open spec fn is_shown(session: JsonView, include_hidden: bool, hidden: Set<Seq<char>>) -> bool {
    include_hidden || (!hidden.contains(text::text_or(session.get_str("id"@), ""@)) && !is_archived(session))
}

/// The entries of the sessions that are shown.
pub open spec fn thread_entries(
    sessions: Seq<JsonView>,
    include_hidden: bool,
    hidden: Set<Seq<char>>,
) -> Seq<JsonView>
    decreases sessions.len(),
{
    if sessions.len() == 0 {
        Seq::empty()
    } else {
        let before = thread_entries(sessions.drop_last(), include_hidden, hidden);
        match thread_entry(sessions.last()) {
            Some(e) => if is_shown(sessions.last(), include_hidden, hidden) {
                before.push(e)
            } else {
                before
            },
            None => before,
        }
    }
}

/// An answer that shows a whole list.
pub open spec fn list_response(data: Seq<JsonView>) -> JsonView {
    json::obj().and(
        "result"@,
        json::obj().and("data"@, JsonView::Array(data)).and("nextCursor"@, JsonView::Null),
    )
}

/// An answer that shows a whole list.
pub fn build_list_response(data: Vec<Json>) -> (r: Json)
    ensures
        r@ == list_response(json::json_views(data@)),
{
    Json::obj().and("result", Json::obj().and("data", Json::array(data)).and("nextCursor", Json::Null))
}

/// Whether a string is among others.
pub fn is_among(ids: &Vec<String>, id: &str) -> (r: bool)
    ensures
        r == text::texts(ids@).to_set().contains(id@),
{
    let mut i: usize = 0;
    let ghost all = text::texts(ids@);
    while i < ids.len()
        invariant
            i <= ids@.len(),
            all == text::texts(ids@),
            forall|k: int| 0 <= k < i ==> #[trigger] all[k] != id@,
        decreases ids@.len() - i,
    {
        if str_eq(ids[i].as_str(), id) {
            assert(all[i as int] == id@);
            assert(all.contains(id@));
            return true;
        }
        i = i + 1;
    }
    assert(!all.contains(id@));
    false
}

/// The answer to a request for the threads, given the sessions and the hidden ones among them.
pub fn build_thread_list(response: &Json, sort_key: &Option<String>, hidden: &Vec<String>) -> (r: Json)
    ensures
        r@ == list_response(
            thread_entries(
                event_translator::items_of(Some(response@)),
                wants_hidden(text::opt_string(*sort_key)),
                text::texts(hidden@).to_set(),
            ),
        ),
{
    let include_hidden: bool = should_include_hidden_sessions(sort_key);
    let ghost hidden_set = text::texts(hidden@).to_set();
    let mut data: Vec<Json> = none();
    if let Some(sessions) = response.as_array() {
        let mut i: usize = 0;
        let ghost all = json::json_views(sessions@);
        while i < sessions.len()
            invariant
                i <= sessions@.len(),
                all == json::json_views(sessions@),
                hidden_set == text::texts(hidden@).to_set(),
                json::json_views(data@) == thread_entries(all.take(i as int), include_hidden, hidden_set),
            decreases sessions@.len() - i,
        {
            proof {
                assert(all.take(i + 1).drop_last() =~= all.take(i as int));
                assert(all.take(i + 1).last() == all[i as int]);
            }
            let session = &sessions[i];
            let id: &str = str_or(session.get_str("id"), "");
            if include_hidden || (!is_among(hidden, id) && !session_is_archived(session)) {
                if let Some(e) = session_to_thread_entry(session) {
                    push_json(&mut data, e);
                }
            }
            i = i + 1;
        }
        assert(all.take(all.len() as int) =~= all);
    }
    build_list_response(data)
}

/// A hidden session stays out of every list that does not ask for the hidden ones.
pub proof fn law_hidden_sessions_stay_hidden(sessions: Seq<JsonView>, hidden: Set<Seq<char>>, id: Seq<char>)
    requires
        hidden.contains(id),
    ensures
        forall|i: int|
            0 <= i < thread_entries(sessions, false, hidden).len() ==> (#[trigger] thread_entries(
                sessions,
                false,
                hidden,
            )[i]).get_str("id"@) != Some(id),
    decreases sessions.len(),
{
    if sessions.len() > 0 {
        law_hidden_sessions_stay_hidden(sessions.drop_last(), hidden, id);
        let before = thread_entries(sessions.drop_last(), false, hidden);
        let after = thread_entries(sessions, false, hidden);
        if after.len() > before.len() {
            lemma_entry_id(sessions.last());
            assert forall|i: int| 0 <= i < after.len() implies (#[trigger] after[i]).get_str("id"@) != Some(id) by {
                if i < before.len() {
                    assert(after[i] == before[i]);
                }
            }
        }
    }
}

/// A list of threads shows the sessions that are neither hidden nor archived, all of them and no
/// others; where the hidden ones are asked for it shows every session. A session without an
/// identifier has no entry.
pub proof fn law_list_shows_the_right_sessions(
    sessions: Seq<JsonView>,
    include_hidden: bool,
    hidden: Set<Seq<char>>,
    entry: JsonView,
)
    ensures
        thread_entries(sessions, include_hidden, hidden).contains(entry) <==> exists|k: int|
            0 <= k < sessions.len() && is_shown(#[trigger] sessions[k], include_hidden, hidden) && thread_entry(
                sessions[k],
            ) == Some(entry),
    decreases sessions.len(),
{
    if sessions.len() > 0 {
        let init = sessions.drop_last();
        let before = thread_entries(init, include_hidden, hidden);
        let after = thread_entries(sessions, include_hidden, hidden);
        law_list_shows_the_right_sessions(init, include_hidden, hidden, entry);
        if after.contains(entry) {
            let i = choose|i: int| 0 <= i < after.len() && after[i] == entry;
            if i < before.len() {
                assert(before[i] == entry);
                let k = choose|k: int|
                    0 <= k < init.len() && is_shown(#[trigger] init[k], include_hidden, hidden) && thread_entry(
                        init[k],
                    ) == Some(entry);
                assert(sessions[k] == init[k]);
            } else {
                assert(sessions[sessions.len() - 1] == sessions.last());
            }
        }
        if exists|k: int|
            0 <= k < sessions.len() && is_shown(#[trigger] sessions[k], include_hidden, hidden) && thread_entry(
                sessions[k],
            ) == Some(entry) {
            let k = choose|k: int|
                0 <= k < sessions.len() && is_shown(#[trigger] sessions[k], include_hidden, hidden) && thread_entry(
                    sessions[k],
                ) == Some(entry);
            if k < init.len() {
                assert(init[k] == sessions[k]);
                let i = choose|i: int| 0 <= i < before.len() && before[i] == entry;
                assert(after[i] == entry);
            } else {
                assert(after[before.len() as int] == entry);
            }
        }
    }
}

/// The entry of a session shows the session's identifier.
proof fn lemma_entry_id(session: JsonView)
    requires
        thread_entry(session) is Some,
    ensures
        (thread_entry(session)->0).get_str("id"@) == session.get_str("id"@),
{
    reveal_strlit("id");
    reveal_strlit("parentId");
    let id = JsonView::Text(session.get_str("id"@)->0);
    let title = JsonView::Text(text::text_or(session.get_str("title"@), ""@));
    let base = json::obj().and("id"@, id).and(
        "cwd"@,
        JsonView::Text(text::text_or(session.get_str("directory"@), ""@)),
    ).and("name"@, title).and("preview"@, title).and(
        "updatedAt"@,
        event_translator::session_updated_at_of(session),
    ).and("createdAt"@, created_or_updated(session));
    let entries = base->Object_0;
    assert(entries[0] == ("id"@, id));
    assert("id"@.len() != "parentId"@.len());
    json::lemma_entry_from(entries, "parentId"@, 0);
    let e = (thread_entry(session)->0)->Object_0;
    assert(e[0] == ("id"@, id));
    assert(json::entry_from(e, "id"@, 0) == Some(0int));
}

// ---------------------------------------------------------------------------
// Other lists
// ---------------------------------------------------------------------------

/// The entry of a server of tools.
pub open spec fn mcp_entry(name: Seq<char>, status: JsonView) -> JsonView {
    let label = match status.get_str("status"@) {
        Some(s) => s,
        None => text::text_or(status.as_str(), ""@),
    };
    json::obj().and("name"@, JsonView::Text(name)).and("status"@, JsonView::Text(label)).and(
        "authStatus"@,
        status,
    ).and("auth_status"@, status).and("tools"@, json::obj()).and(
        "resources"@,
        JsonView::Array(Seq::empty()),
    ).and("resourceTemplates"@, JsonView::Array(Seq::empty())).and(
        "resource_templates"@,
        JsonView::Array(Seq::empty()),
    )
}

/// The entries of servers of tools.
pub open spec fn mcp_entries(servers: Seq<(Seq<char>, JsonView)>) -> Seq<JsonView> {
    Seq::new(servers.len(), |i: int| mcp_entry(servers[i].0, servers[i].1))
}

/// The entries of servers of tools, by name.
pub open spec fn sorted_mcp_entries(servers: Seq<(Seq<char>, JsonView)>) -> Seq<JsonView> {
    sort::reordered(
        mcp_entries(servers),
        sort::sorted_order(servers.len(), sort::text_less(models::entry_keys(servers))),
    )
}

/// The first values of a list, as many as are asked for.
pub open spec fn limited(items: Seq<JsonView>, limit: Option<u32>) -> Seq<JsonView> {
    match limit {
        Some(n) => if n < items.len() {
            items.take(n as int)
        } else {
            items
        },
        None => items,
    }
}

fn build_sorted_mcp_entries(servers: &Vec<(String, Json)>) -> (r: Vec<Json>)
    ensures
        json::json_views(r@) == sorted_mcp_entries(json::json_entries(servers@)),
{
    let mut entries: Vec<Json> = Vec::new();
    let mut i: usize = 0;
    let ghost all = json::json_entries(servers@);
    while i < servers.len()
        invariant
            i <= servers@.len(),
            entries@.len() == i,
            all == json::json_entries(servers@),
            forall|k: int| 0 <= k < i ==> (#[trigger] entries@[k])@ == mcp_entry(all[k].0, all[k].1),
        decreases servers@.len() - i,
    {
        let status = &servers[i].1;
        let label: &str = match status.get_str("status") {
            Some(s) => s,
            None => str_or(status.as_str(), ""),
        };
        entries.push(
            Json::obj().and("name", Json::text(servers[i].0.as_str())).and("status", Json::text(label)).and(
                "authStatus",
                status.clone(),
            ).and("auth_status", status.clone()).and("tools", Json::obj()).and(
                "resources",
                Json::array(none()),
            ).and("resourceTemplates", Json::array(none())).and("resource_templates", Json::array(none())),
        );
        assert(entries@[i as int]@ == mcp_entry(all[i as int].0, all[i as int].1));
        i = i + 1;
    }
    assert(json::json_views(entries@) =~= mcp_entries(all));
    let order: Vec<usize> = order_by_texts(&collect_entry_keys(servers));
    reorder(&entries, &order)
}

/// The answer to a request for the servers of tools.
pub fn build_mcp_status_list(response: &Json, limit: Option<u32>) -> (r: Json)
    ensures
        r@ == list_response(limited(sorted_mcp_entries(models::entries_of(Some(response@))), limit)),
{
    let mut data: Vec<Json> = match response {
        Json::Object(servers) => build_sorted_mcp_entries(servers),
        _ => none(),
    };
    let ghost all = json::json_views(data@);
    assert(all =~= sorted_mcp_entries(models::entries_of(Some(response@))));
    assert(all.len() == data@.len());
    if let Some(n) = limit {
        if (n as usize) < data.len() {
            data.truncate(n as usize);
            assert(json::json_views(data@) =~= all.take(n as int));
        }
    }
    build_list_response(data)
}

/// An answer that shows a list.
pub open spec fn data_response(data: Seq<JsonView>) -> JsonView {
    json::obj().and("result"@, json::obj().and("data"@, JsonView::Array(data)))
}

/// An answer that shows a list.
pub fn build_data_response(data: Vec<Json>) -> (r: Json)
    ensures
        r@ == data_response(json::json_views(data@)),
{
    Json::obj().and("result", Json::obj().and("data", Json::array(data)))
}

/// The answer to a request for the commands.
pub fn build_slash_command_list(response: &Json) -> (r: Json)
    ensures
        r@ == data_response(event_translator::items_of(Some(response@))),
{
    match response.as_array() {
        Some(commands) => build_data_response(crate::tool_items::clone_all(commands)),
        None => build_data_response(none()),
    }
}

/// A skill; nothing where it has no name.
pub open spec fn skill_entry(skill: JsonView) -> Option<JsonView> {
    match text::trimmed_some(skill.get_str("name"@)) {
        Some(name) => Some(
            json::obj().and("name"@, JsonView::Text(name)).and(
                "path"@,
                JsonView::Text(
                    text::text_or(
                        json::as_str_of(json::either_of(skill.get("location"@), skill.get("path"@))),
                        ""@,
                    ),
                ),
            ).and(
                "description"@,
                JsonView::Text(text::text_or(skill.get_str("description"@), ""@)),
            ),
        ),
        None => None,
    }
}

/// The skills that have a name.
pub open spec fn skill_entries(skills: Seq<JsonView>) -> Seq<JsonView>
    decreases skills.len(),
{
    if skills.len() == 0 {
        Seq::empty()
    } else {
        match skill_entry(skills.last()) {
            Some(e) => skill_entries(skills.drop_last()).push(e),
            None => skill_entries(skills.drop_last()),
        }
    }
}

/// The answer to a request for the skills.
pub open spec fn skill_list(response: JsonView) -> JsonView {
    json::obj().and(
        "result"@,
        json::obj().and(
            "skills"@,
            JsonView::Array(skill_entries(event_translator::items_of(Some(response)))),
        ),
    )
}

/// The answer to a request for the skills.
pub fn build_skill_list(response: &Json) -> (r: Json)
    ensures
        r@ == skill_list(response@),
{
    let mut entries: Vec<Json> = none();
    if let Some(skills) = response.as_array() {
        let mut i: usize = 0;
        let ghost all = json::json_views(skills@);
        while i < skills.len()
            invariant
                i <= skills@.len(),
                all == json::json_views(skills@),
                json::json_views(entries@) == skill_entries(all.take(i as int)),
            decreases skills@.len() - i,
        {
            proof {
                assert(all.take(i + 1).drop_last() =~= all.take(i as int));
                assert(all.take(i + 1).last() == all[i as int]);
            }
            let skill = &skills[i];
            if let Some(name) = trim_some(skill.get_str("name")) {
                let path: &str = str_or(as_str_in(either(skill.get("location"), skill.get("path"))), "");
                push_json(
                    &mut entries,
                    Json::obj().and("name", Json::text(name)).and("path", Json::text(path)).and(
                        "description",
                        Json::text(str_or(skill.get_str("description"), "")),
                    ),
                );
            }
            i = i + 1;
        }
        assert(all.take(all.len() as int) =~= all);
    }
    Json::obj().and("result", Json::obj().and("skills", Json::array(entries)))
}

// ---------------------------------------------------------------------------
// Agents
// ---------------------------------------------------------------------------

/// Whether an agent is hidden.
pub open spec fn is_hidden_agent(agent: JsonView) -> bool {
    agent.get("hidden"@) == Some(JsonView::Bool(true))
}

fn hidden_agent(agent: &Json) -> (r: bool)
    ensures
        r == is_hidden_agent(agent@),
{
    match agent.get("hidden") {
        Some(Json::Bool(b)) => *b,
        _ => false,
    }
}

/// Whether an agent can lead a session: its mode says so, or says nothing.
pub open spec fn can_lead(agent: JsonView) -> bool {
    match text::trimmed_some(agent.get_str("mode"@)) {
        Some(mode) => mode == "primary"@ || mode == "all"@,
        None => true,
    }
}

fn leads(agent: &Json) -> (r: bool)
    ensures
        r == can_lead(agent@),
{
    match trim_some(agent.get_str("mode")) {
        Some(mode) => str_eq(mode, "primary") || str_eq(mode, "all"),
        None => true,
    }
}

/// The name with its first character put in capitals, given the capitals.
pub open spec fn capitalized(name: Seq<char>, capitals: Seq<char>) -> Seq<char> {
    capitals + name.skip(1)
}

/// The mode of collaboration with an agent, given the capitals of the first character of its name;
/// nothing where the agent has no name, cannot lead a session, or is hidden.
pub open spec fn mode_entry(agent: JsonView, capitals: Seq<char>) -> Option<JsonView> {
    match text::trimmed_some(agent.get_str("name"@)) {
        Some(name) => if can_lead(agent) && !is_hidden_agent(agent) {
            Some(
                json::obj().and("name"@, JsonView::Text(name)).and(
                    "label"@,
                    JsonView::Text(capitalized(name, capitals)),
                ).and("mode"@, JsonView::Text(name)).and(
                    "description"@,
                    JsonView::Text(text::text_or(agent.get_str("description"@), ""@)),
                ).and("settings"@, json::obj()),
            )
        } else {
            None
        },
        None => None,
    }
}

/// The capitals of the first character of an agent's name.
pub open spec fn agent_capitals(agent: JsonView) -> Seq<char> {
    match text::trimmed_some(agent.get_str("name"@)) {
        Some(name) => text::uppercase_char(name[0]),
        None => Seq::empty(),
    }
}

/// The mode of collaboration with an agent, given the capitals of the first character of its name.
pub fn build_mode_entry(agent: &Json, capitals: &str) -> (r: Option<Json>)
    ensures
        json::opt_json_owned(r) == mode_entry(agent@, capitals@),
{
    let name: &str = match trim_some(agent.get_str("name")) {
        Some(name) => name,
        None => return None,
    };
    if !leads(agent) || hidden_agent(agent) {
        return None;
    }
    let chars: Vec<char> = chars_of(name);
    let rest: String = string_of(&chars, 1, chars.len());
    assert(rest@ =~= name@.skip(1));
    let label: String = cat(capitals, rest.as_str());
    Some(
        Json::obj().and("name", Json::text(name)).and("label", Json::text(label.as_str())).and(
            "mode",
            Json::text(name),
        ).and("description", Json::text(str_or(agent.get_str("description"), ""))).and("settings", Json::obj()),
    )
}

/// The mode of collaboration with an agent.
pub fn collaboration_mode_entry_from_agent(agent: &Json) -> (r: Option<Json>)
    ensures
        json::opt_json_owned(r) == mode_entry(agent@, agent_capitals(agent@)),
{
    let capitals: String = match trim_some(agent.get_str("name")) {
        Some(name) => {
            let chars: Vec<char> = chars_of(name);
            char_to_uppercase(chars[0])
        },
        None => empty(),
    };
    build_mode_entry(agent, capitals.as_str())
}

/// The entry of an agent that can be mentioned; nothing where it has no name, only leads sessions,
/// or is hidden.
pub open spec fn mention_entry(agent: JsonView) -> Option<JsonView> {
    let mode = match agent.get_str("mode"@) {
        Some(m) => text::trim_of(m),
        None => "subagent"@,
    };
    match text::trimmed_some(agent.get_str("name"@)) {
        Some(name) => if mode == "primary"@ || is_hidden_agent(agent) {
            None
        } else {
            Some(
                json::obj().and("name"@, JsonView::Text(name)).and("mode"@, JsonView::Text(mode)).and(
                    "description"@,
                    JsonView::Text(text::text_or(agent.get_str("description"@), ""@)),
                ),
            )
        },
        None => None,
    }
}

/// The entry of an agent that can be mentioned.
pub fn agent_mention_entry_from_agent(agent: &Json) -> (r: Option<Json>)
    ensures
        json::opt_json_owned(r) == mention_entry(agent@),
{
    let name: &str = match trim_some(agent.get_str("name")) {
        Some(name) => name,
        None => return None,
    };
    let mode: &str = match agent.get_str("mode") {
        Some(m) => trim(m),
        None => "subagent",
    };
    if str_eq(mode, "primary") || hidden_agent(agent) {
        return None;
    }
    Some(
        Json::obj().and("name", Json::text(name)).and("mode", Json::text(mode)).and(
            "description",
            Json::text(str_or(agent.get_str("description"), "")),
        ),
    )
}

/// The modes of collaboration with the agents of a list.
pub open spec fn mode_entries(agents: Seq<JsonView>) -> Seq<JsonView>
    decreases agents.len(),
{
    if agents.len() == 0 {
        Seq::empty()
    } else {
        match mode_entry(agents.last(), agent_capitals(agents.last())) {
            Some(e) => mode_entries(agents.drop_last()).push(e),
            None => mode_entries(agents.drop_last()),
        }
    }
}

/// The agents of a list that can be mentioned.
pub open spec fn mention_entries(agents: Seq<JsonView>) -> Seq<JsonView>
    decreases agents.len(),
{
    if agents.len() == 0 {
        Seq::empty()
    } else {
        match mention_entry(agents.last()) {
            Some(e) => mention_entries(agents.drop_last()).push(e),
            None => mention_entries(agents.drop_last()),
        }
    }
}

/// The answer to a request for the modes of collaboration; nothing is shown where the agents are
/// not known.
pub fn build_collaboration_mode_list(agents: Option<&Json>) -> (r: Json)
    ensures
        r@ == data_response(mode_entries(event_translator::items_of(json::opt_json(agents)))),
{
    let mut data: Vec<Json> = none();
    if let Some(list) = as_array_in(agents) {
        let mut i: usize = 0;
        let ghost all = json::json_views(list@);
        while i < list.len()
            invariant
                i <= list@.len(),
                all == json::json_views(list@),
                json::json_views(data@) == mode_entries(all.take(i as int)),
            decreases list@.len() - i,
        {
            proof {
                assert(all.take(i + 1).drop_last() =~= all.take(i as int));
                assert(all.take(i + 1).last() == all[i as int]);
            }
            if let Some(e) = collaboration_mode_entry_from_agent(&list[i]) {
                push_json(&mut data, e);
            }
            i = i + 1;
        }
        assert(all.take(all.len() as int) =~= all);
    }
    build_data_response(data)
}

/// The answer to a request for the agents that can be mentioned; nothing is shown where the agents
/// are not known.
pub fn build_agent_list(agents: Option<&Json>) -> (r: Json)
    ensures
        r@ == data_response(mention_entries(event_translator::items_of(json::opt_json(agents)))),
{
    let mut data: Vec<Json> = none();
    if let Some(list) = as_array_in(agents) {
        let mut i: usize = 0;
        let ghost all = json::json_views(list@);
        while i < list.len()
            invariant
                i <= list@.len(),
                all == json::json_views(list@),
                json::json_views(data@) == mention_entries(all.take(i as int)),
            decreases list@.len() - i,
        {
            proof {
                assert(all.take(i + 1).drop_last() =~= all.take(i as int));
                assert(all.take(i + 1).last() == all[i as int]);
            }
            if let Some(e) = agent_mention_entry_from_agent(&list[i]) {
                push_json(&mut data, e);
            }
            i = i + 1;
        }
        assert(all.take(all.len() as int) =~= all);
    }
    build_data_response(data)
}

// ---------------------------------------------------------------------------
// Requests
// ---------------------------------------------------------------------------

/// The time in milliseconds as a number of 64 bits, given the time since the epoch; zero where the
/// clock stands before it. A time that does not fit goes round.
pub open spec fn unix_ms(since_epoch_ms: Option<u128>) -> int {
    match since_epoch_ms {
        Some(ms) => ms as int % 0x1_0000_0000_0000_0000,
        None => 0,
    }
}

/// The time in milliseconds as a number of 64 bits, given the time since the epoch.
pub fn now_unix_ms(since_epoch_ms: Option<u128>) -> (r: u64)
    ensures
        r == unix_ms(since_epoch_ms),
{
    match since_epoch_ms {
        Some(ms) => (ms % 0x1_0000_0000_0000_0000) as u64,
        None => 0,
    }
}

/// The body of the request to archive a thread.
pub open spec fn archive_body(now_ms: u64) -> JsonView {
    json::obj().and("time"@, json::obj().and("archived"@, event_translator::number(now_ms)))
}

/// The body of the request to archive a thread.
pub fn build_archive_body(now_ms: u64) -> (r: Json)
    ensures
        r@ == archive_body(now_ms),
{
    Json::obj().and("time", Json::obj().and("archived", Json::number(now_ms)))
}

/// The body of the request to name a thread.
pub open spec fn thread_name_body(name: Seq<char>) -> JsonView {
    json::obj().and("title"@, JsonView::Text(text::trim_of(name)))
}

/// The body of the request to name a thread.
pub fn build_thread_name_body(name: &str) -> (r: Json)
    ensures
        r@ == thread_name_body(name@),
{
    Json::obj().and("title", Json::text(trim(name)))
}

/// The model for which a thread's compaction is asked.
pub open spec fn model_to_compact_with(model: Option<Seq<char>>) -> Result<Seq<char>, Seq<char>> {
    match text::trimmed_some(model) {
        Some(m) => Ok(m),
        None => Err(
            "No model selected for context compaction. Select a model (or connect a provider) and try again."@,
        ),
    }
}

/// The model for which a thread's compaction is asked.
pub fn compaction_model(model: Option<String>) -> (r: Result<String, String>)
    ensures
        text::result_text(r) == model_to_compact_with(text::opt_string(model)),
{
    match models::normalize_optional_string(model) {
        Some(m) => Ok(m),
        None => Err(
            "No model selected for context compaction. Select a model (or connect a provider) and try again.".to_owned(),
        ),
    }
}

/// The body of the request to compact a thread, given the model as it was resolved.
pub open spec fn compaction_body(requested: Seq<char>, model: Option<JsonView>) -> Result<JsonView, Seq<char>> {
    match model {
        Some(m) => match m.get_str("providerID"@) {
            Some(p) => match m.get_str("modelID"@) {
                Some(id) => Ok(models::model_object(p, id)),
                None => Err("Compaction model resolution missing modelID."@),
            },
            None => Err("Compaction model resolution missing providerID."@),
        },
        None => Err("Failed to resolve model `"@ + requested + "` for context compaction."@),
    }
}

/// The body of the request to compact a thread.
pub fn build_compaction_body(requested: &str, model: Option<&Json>) -> (r: Result<Json, String>)
    ensures
        json::result_json(r) == compaction_body(requested@, json::opt_json(model)),
{
    match model {
        Some(m) => match m.get_str("providerID") {
            Some(p) => match m.get_str("modelID") {
                Some(id) => Ok(models::build_model_object(p, id)),
                None => Err("Compaction model resolution missing modelID.".to_owned()),
            },
            None => Err("Compaction model resolution missing providerID.".to_owned()),
        },
        None => Err(cat3("Failed to resolve model `", requested, "` for context compaction.")),
    }
}

/// The name of a command: without the white space around it and the slashes in front.
pub open spec fn command_name(command: Seq<char>) -> Seq<char> {
    crate::background::without_slashes(text::trim_of(command))
}

/// The body of the request to run a command; an error where the command has no name.
pub open spec fn slash_command_body(command: Seq<char>, arguments: Option<Seq<char>>) -> Result<JsonView, Seq<char>> {
    if command_name(command).len() == 0 {
        Err("empty slash command"@)
    } else {
        Ok(
            json::obj().and("command"@, JsonView::Text(command_name(command))).and(
                "arguments"@,
                JsonView::Text(text::trim_of(text::text_or(arguments, ""@))),
            ),
        )
    }
}

/// The body of the request to run a command.
pub fn build_slash_command_body(command: &str, arguments: Option<&str>) -> (r: Result<Json, String>)
    ensures
        json::result_json(r) == slash_command_body(command@, text::opt_text(arguments)),
{
    let trimmed: &str = trim(command);
    let v: Vec<char> = chars_of(trimmed);
    let mut lo: usize = 0;
    assert(trimmed@.skip(0) =~= trimmed@);
    while lo < v.len() && v[lo] == '/'
        invariant
            lo <= v@.len(),
            v@ == trimmed@,
            crate::background::without_slashes(trimmed@) == crate::background::without_slashes(
                trimmed@.skip(lo as int),
            ),
        decreases v@.len() - lo,
    {
        assert(trimmed@.skip(lo as int).drop_first() =~= trimmed@.skip(lo + 1));
        lo = lo + 1;
    }
    let name: String = string_of(&v, lo, v.len());
    assert(name@ =~= trimmed@.skip(lo as int));
    if name.as_str().is_empty() {
        return Err("empty slash command".to_owned());
    }
    Ok(
        Json::obj().and("command", Json::text(name.as_str())).and(
            "arguments",
            Json::text(trim(str_or(arguments, ""))),
        ),
    )
}

/// The body of the request to take back a message.
pub open spec fn revert_body(message_id: Seq<char>) -> JsonView {
    json::obj().and("messageID"@, JsonView::Text(message_id))
}

/// The body of the request to take back a message.
pub fn build_revert_body(message_id: &str) -> (r: Json)
    ensures
        r@ == revert_body(message_id@),
{
    Json::obj().and("messageID", Json::text(message_id))
}

/// A field of a review's target that has to be there.
pub open spec fn target_field(
    target: JsonView,
    key: Seq<char>,
    error: Seq<char>,
) -> Result<Seq<char>, Seq<char>> {
    match text::trimmed_some(target.get_str(key)) {
        Some(s) => Ok(s),
        None => Err(error),
    }
}

fn read_target_field(target: &Json, key: &str, error: &str) -> (r: Result<String, String>)
    ensures
        text::result_text(r) == target_field(target@, key@, error@),
{
    match trim_some(target.get_str(key)) {
        Some(s) => Ok(s.to_owned()),
        None => Err(error.to_owned()),
    }
}

/// The arguments of the review command for a target.
pub open spec fn review_arguments(target: JsonView) -> Result<Seq<char>, Seq<char>> {
    let kind = text::trim_of(text::text_or(target.get_str("type"@), ""@));
    if kind.len() == 0 || kind == "uncommittedChanges"@ {
        Ok(Seq::empty())
    } else if kind == "baseBranch"@ {
        target_field(target, "branch"@, "review target missing branch"@)
    } else if kind == "commit"@ {
        target_field(target, "sha"@, "review target missing sha"@)
    } else if kind == "custom"@ {
        target_field(target, "instructions"@, "review target missing instructions"@)
    } else {
        Err("unsupported review target type: "@ + kind)
    }
}

/// The arguments of the review command for a target.
pub fn review_target_to_opencode_arguments(target: &Json) -> (r: Result<String, String>)
    ensures
        text::result_text(r) == review_arguments(target@),
{
    let kind: &str = trim(str_or(target.get_str("type"), ""));
    if kind.is_empty() || str_eq(kind, "uncommittedChanges") {
        Ok(empty())
    } else if str_eq(kind, "baseBranch") {
        read_target_field(target, "branch", "review target missing branch")
    } else if str_eq(kind, "commit") {
        read_target_field(target, "sha", "review target missing sha")
    } else if str_eq(kind, "custom") {
        read_target_field(target, "instructions", "review target missing instructions")
    } else {
        Err(cat("unsupported review target type: ", kind))
    }
}

/// Whether a review is to run in a thread of its own.
pub open spec fn is_detached(delivery: Option<Seq<char>>) -> bool {
    match delivery {
        Some(d) => text::ascii_lowered(text::trim_of(d)) == text::ascii_lowered("detached"@),
        None => false,
    }
}

/// Whether a review is to run in a thread of its own.
pub fn is_detached_review(delivery: Option<&str>) -> (r: bool)
    ensures
        r == is_detached(text::opt_text(delivery)),
{
    match delivery {
        Some(d) => eq_ignore_ascii_case(trim(d), "detached"),
        None => false,
    }
}

/// The thread in which a review runs: the one that was made for it.
pub open spec fn thread_made_for_review(forked: JsonView) -> Result<Seq<char>, Seq<char>> {
    match non_empty(forked.get_str("id"@)) {
        Some(id) => Ok(id),
        None => Err("failed to fork review thread"@),
    }
}

/// The thread in which a review runs: the one that was made for it.
pub fn forked_review_thread(forked: &Json) -> (r: Result<String, String>)
    ensures
        text::result_text(r) == thread_made_for_review(forked@),
{
    match filled(forked.get_str("id")) {
        Some(id) => Ok(id.to_owned()),
        None => Err("failed to fork review thread".to_owned()),
    }
}

/// The thread in which a review runs: the one that was made for it, where it is to have one of its
/// own, and the thread that it is about otherwise.
pub open spec fn thread_of_review(forked: Option<JsonView>, thread_id: Seq<char>) -> Result<Seq<char>, Seq<char>> {
    match forked {
        Some(f) => thread_made_for_review(f),
        None => Ok(thread_id),
    }
}

/// The thread in which a review runs.
pub fn review_thread(thread_id: &str, forked: Option<&Json>) -> (r: Result<String, String>)
    ensures
        text::result_text(r) == thread_of_review(json::opt_json(forked), thread_id@),
{
    match forked {
        Some(f) => forked_review_thread(f),
        None => Ok(thread_id.to_owned()),
    }
}

/// The answer to the request for a review.
pub open spec fn review_response(review_thread_id: Seq<char>) -> JsonView {
    json::obj().and("result"@, json::obj().and("reviewThreadId"@, JsonView::Text(review_thread_id)))
}

/// The answer to the request for a review.
pub fn build_review_response(review_thread_id: &str) -> (r: Json)
    ensures
        r@ == review_response(review_thread_id@),
{
    Json::obj().and("result", Json::obj().and("reviewThreadId", Json::text(review_thread_id)))
}

/// The body of the request for a review.
pub open spec fn review_body(arguments: Seq<char>) -> JsonView {
    json::obj().and("command"@, JsonView::Text("review"@)).and("arguments"@, JsonView::Text(arguments))
}

/// The body of the request for a review.
pub fn build_review_body(arguments: &str) -> (r: Json)
    ensures
        r@ == review_body(arguments@),
{
    Json::obj().and("command", Json::text("review")).and("arguments", Json::text(arguments))
}

/// The words of a command that is always to be allowed: without the white space around them, and
/// without the empty ones.
pub open spec fn approval_words(command: Seq<Seq<char>>) -> Seq<Seq<char>>
    decreases command.len(),
{
    if command.len() == 0 {
        Seq::empty()
    } else {
        let before = approval_words(command.drop_last());
        let word = text::trim_of(command.last());
        if word.len() > 0 {
            before.push(word)
        } else {
            before
        }
    }
}

/// The words of a command that is always to be allowed.
pub fn approval_rule_words(command: &Vec<String>) -> (r: Result<Vec<String>, String>)
    ensures
        match r {
            Ok(words) => text::texts(words@) == approval_words(text::texts(command@)) && words@.len() > 0,
            Err(e) => approval_words(text::texts(command@)).len() == 0 && e@ == "empty command"@,
        },
{
    let words: Vec<String> = trim_all(command);
    assert(text::texts(words@).len() == words@.len());
    if words.len() == 0 {
        return Err("empty command".to_owned());
    }
    Ok(words)
}

/// The strings without the white space around them and without the empty ones.
pub fn trim_all(items: &Vec<String>) -> (r: Vec<String>)
    ensures
        text::texts(r@) == approval_words(text::texts(items@)),
{
    let mut out: Vec<String> = Vec::new();
    let mut i: usize = 0;
    let ghost all = text::texts(items@);
    assert(text::texts(out@) =~= approval_words(all.take(0)));
    while i < items.len()
        invariant
            i <= items@.len(),
            all == text::texts(items@),
            text::texts(out@) == approval_words(all.take(i as int)),
        decreases items@.len() - i,
    {
        proof {
            assert(all.take(i + 1).drop_last() =~= all.take(i as int));
            assert(all.take(i + 1).last() == items@[i as int]@);
        }
        let s: &str = trim(items[i].as_str());
        if !s.is_empty() {
            let ghost before = text::texts(out@);
            out.push(s.to_owned());
            assert(text::texts(out@) =~= before.push(s@));
        }
        i = i + 1;
    }
    assert(all.take(all.len() as int) =~= all);
    out
}

// ---------------------------------------------------------------------------
// Answers to the server's requests
// ---------------------------------------------------------------------------

/// The place of a question in its list, from the name of its answer.
pub open spec fn question_place(key: Seq<char>) -> Option<u64> {
    match text::parsed_u64(key) {
        Some(n) => if n <= usize::MAX {
            Some(n)
        } else {
            None
        },
        None => None,
    }
}

/// The answers to one question, with its place; nothing where the entry is none.
pub open spec fn question_answer(entry: (Seq<char>, JsonView)) -> Option<(u64, JsonView)> {
    match (question_place(entry.0), entry.1.get("answers"@)) {
        (Some(n), Some(JsonView::Array(items))) => Some((n, JsonView::Array(items))),
        _ => None,
    }
}

/// The answers to questions, each with its place.
pub open spec fn question_answers(entries: Seq<(Seq<char>, JsonView)>) -> Seq<(u64, JsonView)>
    decreases entries.len(),
{
    if entries.len() == 0 {
        Seq::empty()
    } else {
        match question_answer(entries.last()) {
            Some(a) => question_answers(entries.drop_last()).push(a),
            None => question_answers(entries.drop_last()),
        }
    }
}

pub open spec fn places(answers: Seq<(u64, JsonView)>) -> Seq<u64> {
    answers.map_values(|a: (u64, JsonView)| a.0)
}

pub open spec fn answers_only(answers: Seq<(u64, JsonView)>) -> Seq<JsonView> {
    answers.map_values(|a: (u64, JsonView)| a.1)
}

/// The answers to questions in the order of the questions.
pub open spec fn ordered_answers(answers: JsonView) -> JsonView {
    let all = question_answers(models::entries_of(Some(answers)));
    JsonView::Array(
        sort::reordered(answers_only(all), sort::sorted_order(all.len(), sort::number_less(places(all)))),
    )
}

/// The answers to questions in the order of the questions.
pub fn transform_question_answers(answers: &Json) -> (r: Json)
    ensures
        r@ == ordered_answers(answers@),
{
    let mut keys: Vec<u64> = Vec::new();
    let mut values: Vec<Json> = none();
    let ghost entries = models::entries_of(Some(answers@));
    assert(keys@ =~= places(question_answers(entries.take(0))));
    assert(json::json_views(values@) =~= answers_only(question_answers(entries.take(0))));
    if let Json::Object(object) = answers {
        let mut i: usize = 0;
        while i < object.len()
            invariant
                i <= object@.len(),
                entries == json::json_entries(object@),
                keys@ == places(question_answers(entries.take(i as int))),
                json::json_views(values@) == answers_only(question_answers(entries.take(i as int))),
            decreases object@.len() - i,
        {
            let ghost before = question_answers(entries.take(i as int));
            proof {
                assert(entries.take(i + 1).drop_last() =~= entries.take(i as int));
                assert(entries.take(i + 1).last() == entries[i as int]);
            }
            if let Some(n) = text::parse_u64(object[i].0.as_str()) {
                if n <= usize::MAX as u64 {
                    let found = object[i].1.get("answers");
                    if let Some(Json::Array(items)) = found {
                        let value = Json::array(crate::tool_items::clone_all(items));
                        keys.push(n);
                        push_json(&mut values, value);
                        proof {
                            let after = question_answers(entries.take(i + 1));
                            assert(after == before.push((n, value@)));
                            assert(keys@ =~= places(after));
                            assert(json::json_views(values@) =~= answers_only(after));
                        }
                    }
                }
            }
            i = i + 1;
        }
        assert(entries.take(entries.len() as int) =~= entries);
    } else {
        assert(entries =~= entries.take(0));
    }
    let ghost all = question_answers(entries);
    assert(json::json_views(values@).len() == values@.len());
    assert(keys@.len() == values@.len());
    let order: Vec<usize> = order_by_numbers(&keys);
    Json::array(reorder(&values, &order))
}

/// The answer to a request of the server, as a mathematical value: the path and the body.
pub open spec fn server_response(request_id: JsonView, result: JsonView) -> (Seq<char>, JsonView) {
    let composite = text::text_or(request_id.as_str(), ""@);
    let resource_id = match text::split_char_of(composite, ':') {
        Some((_, id)) => id,
        None => ""@,
    };
    match result.get("answers"@) {
        Some(answers) => (
            "/question/"@ + resource_id + "/reply"@,
            json::obj().and("answers"@, ordered_answers(answers)),
        ),
        None => if result.get("reject"@) == Some(JsonView::Bool(true)) {
            ("/question/"@ + resource_id + "/reject"@, json::obj())
        } else {
            (
                "/permission/"@ + resource_id + "/reply"@,
                json::obj().and(
                    "reply"@,
                    JsonView::Text(
                        event_translator::permission_reply(
                            text::text_or(result.get_str("decision"@), "accept"@),
                        ),
                    ),
                ),
            )
        },
    }
}

/// The path and the body of the answer to a request of the server.
pub fn build_server_response(request_id: &Json, result: &Json) -> (r: (String, Json))
    ensures
        (r.0@, r.1@) == server_response(request_id@, result@),
{
    let composite: &str = str_or(request_id.as_str(), "");
    let resource_id: &str = match split_once_char(composite, ':') {
        Some((_, id)) => id,
        None => "",
    };
    if let Some(answers) = result.get("answers") {
        return (
            cat3("/question/", resource_id, "/reply"),
            Json::obj().and("answers", transform_question_answers(answers)),
        );
    }
    let reject: bool = match result.get("reject") {
        Some(Json::Bool(b)) => *b,
        _ => false,
    };
    if reject {
        (cat3("/question/", resource_id, "/reject"), Json::obj())
    } else {
        let decision: &str = str_or(result.get_str("decision"), "accept");
        (cat3("/permission/", resource_id, "/reply"), build_permission_response(decision))
    }
}

proof fn lemma_decimal_digits(n: nat)
    ensures
        text::decimal(n).len() > 0,
        forall|i: int| 0 <= i < text::decimal(n).len() ==> text::is_digit(#[trigger] text::decimal(n)[i]),
    decreases n,
{
    if n >= 10 {
        lemma_decimal_digits(n / 10);
        let d = text::decimal(n / 10);
        assert(text::digit(n % 10) as u32 == 48 + n % 10);
        assert forall|i: int| 0 <= i < text::decimal(n).len() implies text::is_digit(
            #[trigger] text::decimal(n)[i],
        ) by {
            if i < d.len() {
                assert(text::decimal(n)[i] == d[i]);
            }
        }
    } else {
        assert(text::digit(n) as u32 == 48 + n);
    }
}

/// The identifier under which a question is shown tells its place in the list again.
pub proof fn law_question_is_found_by_its_place(i: usize)
    ensures
        question_place(text::decimal(i as nat)) == Some(i as u64),
{
    let s = text::decimal(i as nat);
    lemma_decimal_digits(i as nat);
    stream_laws::lemma_decimal_value(i as nat);
    assert(text::is_digit(s[0]));
    assert(text::without_plus(s) == s);
}

proof fn lemma_all_answered(entries: Seq<(Seq<char>, JsonView)>)
    requires
        forall|k: int| 0 <= k < entries.len() ==> question_answer(#[trigger] entries[k]) is Some,
    ensures
        question_answers(entries).len() == entries.len(),
        forall|k: int|
            0 <= k < entries.len() ==> #[trigger] question_answers(entries)[k] == question_answer(entries[k])->0,
    decreases entries.len(),
{
    if entries.len() > 0 {
        let init = entries.drop_last();
        assert forall|k: int| 0 <= k < init.len() implies question_answer(#[trigger] init[k]) is Some by {
            assert(init[k] == entries[k]);
        }
        lemma_all_answered(init);
        assert(question_answer(entries[entries.len() - 1]) is Some);
    }
}

proof fn lemma_rising_from_below(q: Seq<u64>, i: int)
    requires
        0 <= i < q.len(),
        forall|a: int, b: int| 0 <= a < b < q.len() ==> #[trigger] q[a] < #[trigger] q[b],
    ensures
        i <= q[i],
    decreases i,
{
    if i > 0 {
        lemma_rising_from_below(q, i - 1);
        assert(q[i - 1] < q[i]);
    }
}

proof fn lemma_rising_from_above(q: Seq<u64>, i: int)
    requires
        0 <= i < q.len(),
        forall|a: int| 0 <= a < q.len() ==> #[trigger] q[a] < q.len(),
        forall|a: int, b: int| 0 <= a < b < q.len() ==> #[trigger] q[a] < #[trigger] q[b],
    ensures
        q[i] <= i,
    decreases q.len() - i,
{
    if i < q.len() - 1 {
        lemma_rising_from_above(q, i + 1);
        assert(q[i] < q[i + 1]);
    } else {
        assert(q[i] < q.len());
    }
}

/// The answers come in the order of the questions: where each question of a list is answered once,
/// under its place, the answers to it stand at its place.
pub proof fn law_answers_stand_at_the_places_of_their_questions(entries: Seq<(Seq<char>, JsonView)>, k: int)
    requires
        0 <= k < entries.len(),
        forall|a: int|
            0 <= a < entries.len() ==> question_answer(#[trigger] entries[a]) is Some && (question_answer(
                entries[a],
            )->0).0 < entries.len(),
        forall|a: int, b: int|
            0 <= a < b < entries.len() ==> (question_answer(#[trigger] entries[a])->0).0 != (question_answer(
                #[trigger] entries[b],
            )->0).0,
    ensures
        ({
            let row = ordered_answers(JsonView::Object(entries))->Array_0;
            let (place, answers) = question_answer(entries[k])->0;
            &&& row.len() == entries.len()
            &&& row[place as int] == answers
        }),
{
    let n = entries.len();
    let all = question_answers(entries);
    lemma_all_answered(entries);
    let keys = places(all);
    let less = sort::number_less(keys);
    let order = sort::sorted_order(n, less);
    sort::law_numbers_are_an_order(keys);
    sort::law_sorting_permutes(n, less);
    sort::law_sorting_sorts_and_is_stable(n, less);
    let q = Seq::new(n, |i: int| keys[order[i]]);
    assert forall|a: int| 0 <= a < n implies keys[a] == (question_answer(#[trigger] entries[a])->0).0 by {
        assert(all[a] == question_answer(entries[a])->0);
    }
    assert forall|a: int| 0 <= a < q.len() implies #[trigger] q[a] < q.len() by {
        let x = order[a];
        assert(question_answer(entries[x]) is Some);
    }
    assert forall|a: int, b: int| 0 <= a < b < q.len() implies #[trigger] q[a] < #[trigger] q[b] by {
        let x = order[a];
        let y = order[b];
        assert(!less(y, x));
        assert(x != y);
        if x < y {
            assert((question_answer(entries[x])->0).0 != (question_answer(entries[y])->0).0);
        } else {
            assert((question_answer(entries[y])->0).0 != (question_answer(entries[x])->0).0);
        }
    }
    sort::lemma_permutation_reaches(order, n, k);
    let i = choose|i: int| 0 <= i < n && #[trigger] order[i] == k;
    lemma_rising_from_below(q, i);
    lemma_rising_from_above(q, i);
    assert(q[i] == keys[k]);
    assert(all[k] == question_answer(entries[k])->0);
}

/// Whether a text holds a character.
pub open spec fn holds_char(s: Seq<char>, c: char) -> bool {
    exists|i: int| 0 <= i < s.len() && #[trigger] s[i] == c
}

proof fn lemma_first_char(a: Seq<char>, c: char, b: Seq<char>, from: int)
    requires
        !holds_char(a, c),
        0 <= from <= a.len(),
    ensures
        text::char_from(a + seq![c] + b, c, from) == Some(a.len() as int),
    decreases a.len() - from,
{
    let s = a + seq![c] + b;
    if from < a.len() {
        assert(s[from] == a[from]);
        lemma_first_char(a, c, b, from + 1);
    } else {
        assert(s[from] == c);
    }
}

/// The answer to a request finds its way back: the identifier under which a question or a request
/// for a permission was shown leads to the path of that very question or permission, whatever the
/// session is called, as long as its identifier holds no colon.
pub proof fn law_answers_find_their_way_back(session_id: Seq<char>, id: Seq<char>, result: JsonView)
    requires
        !holds_char(session_id, ':'),
    ensures
        ({
            let path = server_response(
                JsonView::Text(event_translator::composite_id(session_id, id)),
                result,
            ).0;
            if result.get("answers"@) is Some {
                path == "/question/"@ + id + "/reply"@
            } else if result.get("reject"@) == Some(JsonView::Bool(true)) {
                path == "/question/"@ + id + "/reject"@
            } else {
                path == "/permission/"@ + id + "/reply"@
            }
        }),
{
    reveal_strlit(":");
    assert(":"@ =~= seq![':']);
    lemma_first_char(session_id, ':', id, 0);
    let s = event_translator::composite_id(session_id, id);
    assert(s.skip((session_id.len() + 1) as int) =~= id);
}

} // verus!
