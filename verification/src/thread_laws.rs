//! What the threads of a list, and the answers to requests, show.

use vstd::prelude::*;

use crate::json;
use crate::json::JsonView;
use crate::models;
use crate::reading;
use crate::text;
use crate::threads;

verus! {

proof fn lemma_thread_names()
    ensures
        ""@.len() == 0,
        "created"@.len() == 7,
        "created"@[0] == 'c',
        "createdAt"@.len() == 9,
        "createdAt"@[0] == 'c',
        "created_at"@.len() == 10,
        "created_at"@[0] == 'c',
        "cwd"@.len() == 3,
        "data"@.len() == 4,
        "data"@[0] == 'd',
        "directory"@.len() == 9,
        "directory"@[0] == 'd',
        "id"@.len() == 2,
        "name"@.len() == 4,
        "name"@[0] == 'n',
        "nextCursor"@.len() == 10,
        "nextCursor"@[0] == 'n',
        "parentID"@.len() == 8,
        "parentID"@[7] == 'D',
        "parentId"@.len() == 8,
        "parentId"@[7] == 'd',
        "parent_id"@.len() == 9,
        "parent_id"@[0] == 'p',
        "preview"@.len() == 7,
        "preview"@[0] == 'p',
        "result"@.len() == 6,
        "result"@[0] == 'r',
        "thread"@.len() == 6,
        "thread"@[0] == 't',
        "time"@.len() == 4,
        "time"@[0] == 't',
        "title"@.len() == 5,
        "updated"@.len() == 7,
        "updated"@[0] == 'u',
        "updatedAt"@.len() == 9,
        "updatedAt"@[0] == 'u',
        "updated_at"@.len() == 10,
        "updated_at"@[0] == 'u',
{
    reveal_strlit("");
    reveal_strlit("created");
    reveal_strlit("createdAt");
    reveal_strlit("created_at");
    reveal_strlit("cwd");
    reveal_strlit("data");
    reveal_strlit("directory");
    reveal_strlit("id");
    reveal_strlit("name");
    reveal_strlit("nextCursor");
    reveal_strlit("parentID");
    reveal_strlit("parentId");
    reveal_strlit("parent_id");
    reveal_strlit("preview");
    reveal_strlit("result");
    reveal_strlit("thread");
    reveal_strlit("time");
    reveal_strlit("title");
    reveal_strlit("updated");
    reveal_strlit("updatedAt");
    reveal_strlit("updated_at");
}

// ---------------------------------------------------------------------------
// Threads
// ---------------------------------------------------------------------------

/// The thread of a session shows the fields of that session: its directory, and its title as name
/// and preview. A session has a thread exactly where it has an identifier.
pub proof fn law_thread_shows_its_session(session: JsonView)
    ensures
        match threads::thread_entry(session) {
            Some(entry) => {
                &&& reading::string_at(session, "id"@).len() > 0
                &&& entry.get("id"@) == session.get("id"@)
                &&& entry.get("cwd"@) == reading::found(reading::string_at(session, "directory"@))
                &&& entry.get("name"@) == reading::found(reading::string_at(session, "title"@))
                &&& entry.get("preview"@) == reading::found(reading::string_at(session, "title"@))
            },
            None => reading::string_at(session, "id"@).len() == 0,
        },
{
    broadcast use reading::group_reading;
    lemma_thread_names();
    assert(""@ =~= Seq::<char>::empty());
}

/// The thread of a session shows when the session was changed and made, as far as it tells, and
/// which session it came from.
pub proof fn law_thread_shows_times_and_parent(session: JsonView)
    requires
        reading::string_at(session, "id"@).len() > 0,
    ensures
        ({
            let entry = threads::thread_entry(session)->0;
            let time = session.get("time"@);
            let updated = reading::first(
                reading::first(session.get("updatedAt"@), session.get("updated_at"@)),
                reading::first(
                    reading::first(reading::within(time, "updated"@), reading::within(time, "updatedAt"@)),
                    reading::within(time, "updated_at"@),
                ),
            );
            let created = reading::first(
                reading::first(session.get("createdAt"@), session.get("created_at"@)),
                reading::first(
                    reading::first(reading::within(time, "created"@), reading::within(time, "createdAt"@)),
                    reading::within(time, "created_at"@),
                ),
            );
            let parent = reading::first(
                reading::first(session.get("parentID"@), session.get("parentId"@)),
                session.get("parent_id"@),
            );
            &&& updated is Some ==> entry.get("updatedAt"@) == updated
            &&& updated is None ==> entry.get("updatedAt"@) == Some(JsonView::Null)
            &&& created is Some ==> entry.get("createdAt"@) == created
            &&& created is None ==> entry.get("createdAt"@) == entry.get("updatedAt"@)
            &&& match parent {
                Some(JsonView::Text(id)) => if id.len() > 0 {
                    entry.get("parentId"@) == parent
                } else {
                    entry.get("parentId"@) is None
                },
                _ => entry.get("parentId"@) is None,
            }
        }),
{
    broadcast use reading::group_reading;
    lemma_thread_names();
}

/// The thread of a resumed session is that of its details; where they tell no identifier, it is the
/// thread that was asked for.
pub proof fn law_resumed_thread_is_the_one_asked_for(thread_id: Seq<char>, details: JsonView)
    ensures
        threads::result_thread(thread_id, None).get("id"@) == reading::found(thread_id),
        if reading::string_at(details, "id"@).len() > 0 {
            Some(threads::result_thread(thread_id, Some(details))) == threads::thread_entry(details)
        } else {
            threads::result_thread(thread_id, Some(details)).get("id"@) == reading::found(thread_id)
        },
{
    broadcast use reading::group_reading;
    lemma_thread_names();
}

/// Answers carry what they are given: a thread, a list with no further page, or plain data.
pub proof fn law_answers_carry_their_data(thread: JsonView, data: Seq<JsonView>)
    ensures
        reading::within(threads::thread_response(thread).get("result"@), "thread"@) == Some(thread),
        reading::within(threads::list_response(data).get("result"@), "data"@) == Some(JsonView::Array(data)),
        reading::within(threads::list_response(data).get("result"@), "nextCursor"@) == Some(JsonView::Null),
        reading::within(threads::data_response(data).get("result"@), "data"@) == Some(JsonView::Array(data)),
{
    broadcast use reading::group_reading;
    lemma_thread_names();
}

/// A session that was started becomes the active one, unless the server did not name it; nothing
/// else changes.
pub proof fn law_started_session_is_active(s: crate::session_state::StateView, response: JsonView)
    ensures
        ({
            let after = threads::session_started(s, response);
            let id = reading::string_at(response, "id"@);
            &&& id.len() > 0 ==> after.session_id == id
            &&& id.len() == 0 ==> after.session_id == s.session_id
            &&& after.session_turns == s.session_turns
            &&& after.item_counter == s.item_counter
            &&& after.message_roles == s.message_roles
            &&& after.model_context_windows == s.model_context_windows
        }),
{
}

// ---------------------------------------------------------------------------
// Lists of threads
// ---------------------------------------------------------------------------

/// A list of threads is made session by session, in their order.
pub proof fn law_threads_are_listed_in_order(
    a: Seq<JsonView>,
    b: Seq<JsonView>,
    include_hidden: bool,
    hidden: Set<Seq<char>>,
)
    ensures
        threads::thread_entries(a + b, include_hidden, hidden)
            == threads::thread_entries(a, include_hidden, hidden) + threads::thread_entries(b, include_hidden, hidden),
        threads::thread_entries(Seq::empty(), include_hidden, hidden).len() == 0,
    decreases b.len(),
{
    if b.len() == 0 {
        assert(a + b =~= a);
        assert(threads::thread_entries(a, include_hidden, hidden) + threads::thread_entries(b, include_hidden, hidden)
            =~= threads::thread_entries(a, include_hidden, hidden));
    } else {
        let init = b.drop_last();
        law_threads_are_listed_in_order(a, init, include_hidden, hidden);
        assert((a + b).drop_last() =~= a + init);
        assert((a + b).last() == b.last());
        assert(threads::thread_entries(a + b, include_hidden, hidden)
            =~= threads::thread_entries(a, include_hidden, hidden)
            + threads::thread_entries(b, include_hidden, hidden));
    }
}

proof fn lemma_list_names()
    ensures
        ""@.len() == 0,
        "all"@.len() == 3,
        "archived"@.len() == 8,
        "id"@.len() == 2,
        "time"@.len() == 4,
{
    reveal_strlit("");
    reveal_strlit("all");
    reveal_strlit("archived");
    reveal_strlit("id");
    reveal_strlit("time");
}

/// A session is listed unless it is hidden or archived, which is told by a time of archival; where
/// the hidden ones are asked for, it is listed all the same.
pub proof fn law_session_is_listed_or_not(session: JsonView, hidden: Set<Seq<char>>)
    requires
        reading::string_at(session, "id"@).len() > 0,
    ensures
        ({
            let entry = threads::thread_entry(session)->0;
            let archived = reading::within(session.get("time"@), "archived"@);
            let shown = threads::thread_entries(seq![session], false, hidden);
            &&& threads::thread_entries(seq![session], true, hidden) == seq![entry]
            &&& hidden.contains(reading::string_at(session, "id"@)) ==> shown.len() == 0
            &&& archived matches Some(JsonView::Number(json::NumberView::Unsigned(_))) ==> shown.len() == 0
            &&& !hidden.contains(reading::string_at(session, "id"@)) && archived is None ==> shown == seq![entry]
        }),
{
    lemma_list_names();
    reveal_with_fuel(threads::thread_entries, 2);
    assert(seq![session].drop_last() =~= Seq::<JsonView>::empty());
    assert(Seq::<JsonView>::empty().push(threads::thread_entry(session)->0) =~= seq![
        threads::thread_entry(session)->0,
    ]);
}

/// The hidden sessions are asked for by the word `all`, in whatever letters, and by nothing else.
pub proof fn law_hidden_sessions_are_asked_for(sort_key: Seq<char>)
    ensures
        !threads::wants_hidden(None),
        sort_key.len() == 3 && !text::white_space(sort_key[0]) && !text::white_space(sort_key[2])
            ==> (threads::wants_hidden(Some(sort_key)) <==> ((sort_key[0] == 'a' || sort_key[0] == 'A') && (
        sort_key[1] == 'l' || sort_key[1] == 'L') && (sort_key[2] == 'l' || sort_key[2] == 'L'))),
{
    reveal_strlit("all");
    if sort_key.len() == 3 && !text::white_space(sort_key[0]) && !text::white_space(sort_key[2]) {
        let a = text::ascii_lowered(sort_key);
        let b = text::ascii_lowered("all"@);
        assert(text::trim_of(sort_key) == sort_key);
        assert(b[0] == 'a' && b[1] == 'l' && b[2] == 'l');
        if threads::wants_hidden(Some(sort_key)) {
            assert(a[0] == b[0] && a[1] == b[1] && a[2] == b[2]);
        }
        if (sort_key[0] == 'a' || sort_key[0] == 'A') && (sort_key[1] == 'l' || sort_key[1] == 'L') && (sort_key[2]
            == 'l' || sort_key[2] == 'L') {
            assert(a =~= b);
        }
    }
}

// ---------------------------------------------------------------------------
// Servers, skills and agents
// ---------------------------------------------------------------------------

proof fn lemma_catalogue_names()
    ensures
        ""@.len() == 0,
        "all"@.len() == 3,
        "authStatus"@.len() == 10,
        "auth_status"@.len() == 11,
        "auth_status"@[0] == 'a',
        "description"@.len() == 11,
        "description"@[0] == 'd',
        "hidden"@.len() == 6,
        "hidden"@[0] == 'h',
        "label"@.len() == 5,
        "label"@[0] == 'l',
        "location"@.len() == 8,
        "location"@[0] == 'l',
        "mode"@.len() == 4,
        "mode"@[0] == 'm',
        "name"@.len() == 4,
        "name"@[0] == 'n',
        "path"@.len() == 4,
        "path"@[0] == 'p',
        "primary"@.len() == 7,
        "resourceTemplates"@.len() == 17,
        "resource_templates"@.len() == 18,
        "resources"@.len() == 9,
        "settings"@.len() == 8,
        "settings"@[0] == 's',
        "settings"@[1] == 'e',
        "status"@.len() == 6,
        "status"@[0] == 's',
        "subagent"@.len() == 8,
        "subagent"@[0] == 's',
        "subagent"@[1] == 'u',
        "tools"@.len() == 5,
        "tools"@[0] == 't',
{
    reveal_strlit("");
    reveal_strlit("all");
    reveal_strlit("authStatus");
    reveal_strlit("auth_status");
    reveal_strlit("description");
    reveal_strlit("hidden");
    reveal_strlit("label");
    reveal_strlit("location");
    reveal_strlit("mode");
    reveal_strlit("name");
    reveal_strlit("path");
    reveal_strlit("primary");
    reveal_strlit("resourceTemplates");
    reveal_strlit("resource_templates");
    reveal_strlit("resources");
    reveal_strlit("settings");
    reveal_strlit("status");
    reveal_strlit("subagent");
    reveal_strlit("tools");
}

/// The entry of a tool server shows its name and its status, which stands in a field or is the
/// whole value.
pub proof fn law_server_shows_its_status(name: Seq<char>, status: JsonView)
    ensures
        ({
            let entry = threads::mcp_entry(name, status);
            &&& entry.get("name"@) == reading::found(name)
            &&& entry.get("authStatus"@) == Some(status)
            &&& entry.get("auth_status"@) == Some(status)
            &&& entry.get("tools"@) == Some(json::obj())
            &&& entry.get("resources"@) == Some(JsonView::Array(Seq::empty()))
            &&& entry.get("resourceTemplates"@) == Some(JsonView::Array(Seq::empty()))
            &&& entry.get("resource_templates"@) == Some(JsonView::Array(Seq::empty()))
            &&& match (status, status.get("status"@)) {
                (_, Some(JsonView::Text(word))) => entry.get("status"@) == reading::found(word),
                (JsonView::Text(word), _) => entry.get("status"@) == reading::found(word),
                _ => entry.get("status"@) == reading::found(Seq::empty()),
            }
        }),
{
    broadcast use reading::group_reading;
    lemma_catalogue_names();
    assert(""@ =~= Seq::<char>::empty());
}

/// A list of servers is cut off behind its limit, where it has one, and not changed otherwise.
pub proof fn law_limit_cuts_the_list(items: Seq<JsonView>, limit: Option<u32>)
    ensures
        ({
            let cut = threads::limited(items, limit);
            &&& limit is None ==> cut == items
            &&& limit matches Some(n) ==> cut.len() == (if n < items.len() {
                n as nat
            } else {
                items.len()
            })
            &&& forall|i: int| 0 <= i < cut.len() ==> #[trigger] cut[i] == items[i]
        }),
{
}

/// The servers of a list stand in the order of their names, each of them once.
pub proof fn law_servers_are_listed_by_name(servers: Seq<(Seq<char>, JsonView)>, i: int, j: int)
    requires
        0 <= i < j < servers.len(),
    ensures
        ({
            let row = threads::sorted_mcp_entries(servers);
            &&& row.len() == servers.len()
            &&& text::text_le(reading::string_at(row[i], "name"@), reading::string_at(row[j], "name"@))
            &&& exists|k: int|
                0 <= k < servers.len() && row[i] == threads::mcp_entry(
                    (#[trigger] servers[k]).0,
                    servers[k].1,
                )
        }),
{
    let keys = models::entry_keys(servers);
    let less = crate::sort::text_less(keys);
    let n = servers.len();
    crate::sort::law_texts_are_an_order(keys);
    crate::sort::law_sorting_permutes(n, less);
    crate::sort::law_sorting_sorts_and_is_stable(n, less);
    let order = crate::sort::sorted_order(n, less);
    let (a, b) = (order[i], order[j]);
    law_server_shows_its_status(servers[a].0, servers[a].1);
    law_server_shows_its_status(servers[b].0, servers[b].1);
    assert(!less(b, a));
    assert(keys[a] == Some(servers[a].0) && keys[b] == Some(servers[b].0));
}

/// A skill is listed under its name, with the place where it stands and its description.
pub proof fn law_skill_shows_its_fields(skill: JsonView)
    ensures
        match threads::skill_entry(skill) {
            Some(entry) => {
                &&& entry.get("name"@) == reading::found(text::trim_of(reading::string_at(skill, "name"@)))
                &&& skill.get("location"@) matches Some(JsonView::Text(place)) ==> entry.get("path"@)
                    == reading::found(place)
                &&& skill.get("location"@) is None ==> entry.get("path"@) == reading::found(
                    reading::string_at(skill, "path"@),
                )
                &&& entry.get("description"@) == reading::found(reading::string_at(skill, "description"@))
            },
            None => text::trim_of(reading::string_at(skill, "name"@)).len() == 0,
        },
        text::trim_of(reading::string_at(skill, "name"@)).len() > 0 ==> threads::skill_entry(skill) is Some,
{
    broadcast use reading::group_reading;
    lemma_catalogue_names();
    assert(""@ =~= Seq::<char>::empty());
}

/// Skills are listed one by one, in their order.
pub proof fn law_skills_are_listed_in_order(a: Seq<JsonView>, b: Seq<JsonView>)
    ensures
        threads::skill_entries(a + b) == threads::skill_entries(a) + threads::skill_entries(b),
        threads::skill_entries(Seq::empty()).len() == 0,
    decreases b.len(),
{
    if b.len() == 0 {
        assert(a + b =~= a);
        assert(threads::skill_entries(a) + threads::skill_entries(b) =~= threads::skill_entries(a));
    } else {
        let init = b.drop_last();
        law_skills_are_listed_in_order(a, init);
        assert((a + b).drop_last() =~= a + init);
        assert((a + b).last() == b.last());
        assert(threads::skill_entries(a + b) =~= threads::skill_entries(a) + threads::skill_entries(b));
    }
}

/// An agent can lead where its mode is `primary` or `all` or is not told, and it is not hidden; it
/// is shown under its name, with its description.
pub proof fn law_leading_agents_are_shown(agent: JsonView, capitals: Seq<char>)
    ensures
        ({
            let name = text::trim_of(reading::string_at(agent, "name"@));
            let mode = text::trim_of(reading::string_at(agent, "mode"@));
            let leads = mode.len() == 0 || mode == "primary"@ || mode == "all"@;
            let is_hidden = agent.get("hidden"@) == Some(JsonView::Bool(true));
            match threads::mode_entry(agent, capitals) {
                Some(entry) => {
                    &&& name.len() > 0 && leads && !is_hidden
                    &&& entry.get("name"@) == reading::found(name)
                    &&& entry.get("mode"@) == reading::found(name)
                    &&& entry.get("label"@) == reading::found(capitals + name.skip(1))
                    &&& entry.get("description"@) == reading::found(reading::string_at(agent, "description"@))
                },
                None => name.len() == 0 || !leads || is_hidden,
            }
        }),
{
    broadcast use reading::group_reading;
    lemma_catalogue_names();
    assert(""@ =~= Seq::<char>::empty());
    lemma_empty_trims();
}

proof fn lemma_empty_trims()
    ensures
        text::trim_of(Seq::empty()).len() == 0,
{
}

/// An agent can be mentioned where its mode is not `primary` and it is not hidden; one without a
/// mode is a subagent.
pub proof fn law_agents_that_can_be_mentioned(agent: JsonView)
    ensures
        ({
            let name = text::trim_of(reading::string_at(agent, "name"@));
            let mode = match agent.get("mode"@) {
                Some(JsonView::Text(m)) => text::trim_of(m),
                _ => "subagent"@,
            };
            let is_hidden = agent.get("hidden"@) == Some(JsonView::Bool(true));
            match threads::mention_entry(agent) {
                Some(entry) => {
                    &&& name.len() > 0 && mode != "primary"@ && !is_hidden
                    &&& entry.get("name"@) == reading::found(name)
                    &&& entry.get("mode"@) == reading::found(mode)
                    &&& entry.get("description"@) == reading::found(reading::string_at(agent, "description"@))
                },
                None => name.len() == 0 || mode == "primary"@ || is_hidden,
            }
        }),
{
    broadcast use reading::group_reading;
    lemma_catalogue_names();
    assert(""@ =~= Seq::<char>::empty());
    lemma_empty_trims();
}

/// Modes are listed agent by agent, in their order.
pub proof fn law_modes_are_listed_in_order(a: Seq<JsonView>, b: Seq<JsonView>)
    ensures
        threads::mode_entries(a + b) == threads::mode_entries(a) + threads::mode_entries(b),
        threads::mode_entries(Seq::empty()).len() == 0,
    decreases b.len(),
{
    if b.len() == 0 {
        assert(a + b =~= a);
        assert(threads::mode_entries(a) + threads::mode_entries(b) =~= threads::mode_entries(a));
    } else {
        let init = b.drop_last();
        law_modes_are_listed_in_order(a, init);
        assert((a + b).drop_last() =~= a + init);
        assert((a + b).last() == b.last());
        assert(threads::mode_entries(a + b) =~= threads::mode_entries(a) + threads::mode_entries(b));
    }
}

/// Agents that can be mentioned are listed one by one, in their order.
pub proof fn law_mentions_are_listed_in_order(a: Seq<JsonView>, b: Seq<JsonView>)
    ensures
        threads::mention_entries(a + b) == threads::mention_entries(a) + threads::mention_entries(b),
        threads::mention_entries(Seq::empty()).len() == 0,
    decreases b.len(),
{
    if b.len() == 0 {
        assert(a + b =~= a);
        assert(threads::mention_entries(a) + threads::mention_entries(b) =~= threads::mention_entries(a));
    } else {
        let init = b.drop_last();
        law_mentions_are_listed_in_order(a, init);
        assert((a + b).drop_last() =~= a + init);
        assert((a + b).last() == b.last());
        assert(threads::mention_entries(a + b) =~= threads::mention_entries(a) + threads::mention_entries(b));
    }
}

// ---------------------------------------------------------------------------
// Requests
// ---------------------------------------------------------------------------

proof fn lemma_request_names()
    ensures
        ""@.len() == 0,
        "Compaction model resolution missing modelID."@.len() == 44,
        "Compaction model resolution missing providerID."@.len() == 47,
        "accept"@.len() == 6,
        "accept"@[0] == 'a',
        "accept"@[1] == 'c',
        "always"@.len() == 6,
        "always"@[0] == 'a',
        "always"@[1] == 'l',
        "answers"@.len() == 7,
        "answers"@[0] == 'a',
        "baseBranch"@.len() == 10,
        "baseBranch"@[0] == 'b',
        "branch"@.len() == 6,
        "branch"@[0] == 'b',
        "commit"@.len() == 6,
        "commit"@[0] == 'c',
        "commit"@[1] == 'o',
        "custom"@.len() == 6,
        "custom"@[0] == 'c',
        "custom"@[1] == 'u',
        "decision"@.len() == 8,
        "instructions"@.len() == 12,
        "modelID"@.len() == 7,
        "modelID"@[0] == 'm',
        "once"@.len() == 4,
        "once"@[0] == 'o',
        "providerID"@.len() == 10,
        "providerID"@[0] == 'p',
        "reject"@.len() == 6,
        "reject"@[0] == 'r',
        "reply"@.len() == 5,
        "review target missing branch"@.len() == 28,
        "review target missing instructions"@.len() == 34,
        "review target missing sha"@.len() == 25,
        "sha"@.len() == 3,
        "type"@.len() == 4,
        "type"@[0] == 't',
        "uncommittedChanges"@.len() == 18,
{
    reveal_strlit("");
    reveal_strlit("Compaction model resolution missing modelID.");
    reveal_strlit("Compaction model resolution missing providerID.");
    reveal_strlit("accept");
    reveal_strlit("always");
    reveal_strlit("answers");
    reveal_strlit("baseBranch");
    reveal_strlit("branch");
    reveal_strlit("commit");
    reveal_strlit("custom");
    reveal_strlit("decision");
    reveal_strlit("instructions");
    reveal_strlit("modelID");
    reveal_strlit("once");
    reveal_strlit("providerID");
    reveal_strlit("reject");
    reveal_strlit("reply");
    reveal_strlit("review target missing branch");
    reveal_strlit("review target missing instructions");
    reveal_strlit("review target missing sha");
    reveal_strlit("sha");
    reveal_strlit("type");
    reveal_strlit("uncommittedChanges");
}

/// A thread is compacted with the model that was resolved, and only where both its names are known.
pub proof fn law_compaction_uses_the_resolved_model(requested: Seq<char>, model: Option<JsonView>)
    ensures
        match threads::compaction_body(requested, model) {
            Ok(body) => {
                &&& model is Some
                &&& (model->0).get("providerID"@) is Some && (model->0).get("modelID"@) is Some
                &&& body.get("providerID"@) == (model->0).get("providerID"@)
                &&& body.get("modelID"@) == (model->0).get("modelID"@)
            },
            Err(e) => model matches Some(m) ==> {
                let provider = reading::text_at(m, "providerID"@);
                &&& provider is None ==> e == "Compaction model resolution missing providerID."@
                &&& provider is Some ==> e == "Compaction model resolution missing modelID."@ && reading::text_at(
                    m,
                    "modelID"@,
                ) is None
            },
        },
        model is None ==> threads::compaction_body(requested, model) == Err::<JsonView, Seq<char>>(
            "Failed to resolve model `"@ + requested + "` for context compaction."@,
        ),
{
    broadcast use reading::group_reading;
    lemma_request_names();
}

/// The name of a command has no slash and no white space in front of it, and nothing else is taken
/// away from it: what was in front of it were white space and slashes.
pub proof fn law_command_has_no_slash(command: Seq<char>)
    ensures
        ({
            let name = threads::command_name(command);
            let whole = text::trim_of(command);
            &&& name.len() > 0 ==> name[0] != '/'
            &&& name.len() <= whole.len()
            &&& name == whole.skip(whole.len() - name.len())
            &&& forall|i: int| 0 <= i < whole.len() - name.len() ==> (#[trigger] whole[i]) == '/'
        }),
{
    lemma_slashes(text::trim_of(command));
}

proof fn lemma_slashes(s: Seq<char>)
    ensures
        ({
            let t = crate::background::without_slashes(s);
            &&& t.len() > 0 ==> t[0] != '/'
            &&& t.len() <= s.len()
            &&& t == s.skip(s.len() - t.len())
            &&& forall|i: int| 0 <= i < s.len() - t.len() ==> (#[trigger] s[i]) == '/'
        }),
    decreases s.len(),
{
    if s.len() > 0 && s[0] == '/' {
        let rest = s.drop_first();
        lemma_slashes(rest);
        let t = crate::background::without_slashes(s);
        assert(rest.skip(rest.len() - t.len()) =~= s.skip(s.len() - t.len()));
        assert forall|i: int| 0 <= i < s.len() - t.len() implies (#[trigger] s[i]) == '/' by {
            if i > 0 {
                assert(s[i] == rest[i - 1]);
            }
        }
    } else {
        assert(s.skip(0) =~= s);
    }
}

/// What is reviewed is what the target names: the branch, the commit or the instructions, without
/// white space around them. Without a kind, or of uncommitted changes, nothing more is told.
pub proof fn law_review_is_of_its_target(target: JsonView)
    ensures
        ({
            let kind = text::trim_of(reading::string_at(target, "type"@));
            let arguments = threads::review_arguments(target);
            let named = |field: Seq<char>, error: Seq<char>|
                if text::trim_of(reading::string_at(target, field)).len() > 0 {
                    arguments == Ok::<Seq<char>, Seq<char>>(text::trim_of(reading::string_at(target, field)))
                } else {
                    arguments == Err::<Seq<char>, Seq<char>>(error)
                };
            &&& kind.len() == 0 || kind == "uncommittedChanges"@ ==> arguments == Ok::<Seq<char>, Seq<char>>(
                Seq::empty(),
            )
            &&& kind == "baseBranch"@ ==> named("branch"@, "review target missing branch"@)
            &&& kind == "commit"@ ==> named("sha"@, "review target missing sha"@)
            &&& kind == "custom"@ ==> named("instructions"@, "review target missing instructions"@)
            &&& arguments is Ok ==> kind.len() == 0 || kind == "uncommittedChanges"@ || kind == "baseBranch"@
                || kind == "commit"@ || kind == "custom"@
        }),
{
    lemma_request_names();
    lemma_empty_trims();
    assert(""@ =~= Seq::<char>::empty());
}

/// The words of a command that is always to be allowed are taken one by one, in their order.
pub proof fn law_words_of_a_rule_keep_their_order(a: Seq<Seq<char>>, b: Seq<Seq<char>>)
    ensures
        threads::approval_words(a + b) == threads::approval_words(a) + threads::approval_words(b),
        threads::approval_words(Seq::empty()).len() == 0,
    decreases b.len(),
{
    if b.len() == 0 {
        assert(a + b =~= a);
        assert(threads::approval_words(a) + threads::approval_words(b) =~= threads::approval_words(a));
    } else {
        let init = b.drop_last();
        law_words_of_a_rule_keep_their_order(a, init);
        assert((a + b).drop_last() =~= a + init);
        assert((a + b).last() == b.last());
        assert(threads::approval_words(a + b) =~= threads::approval_words(a) + threads::approval_words(b));
    }
}

/// A word of a command that is always to be allowed is taken without the white space around it; one
/// that is nothing but white space is left out.
pub proof fn law_word_of_a_rule_is_trimmed(word: Seq<char>)
    ensures
        if text::trim_of(word).len() > 0 {
            threads::approval_words(seq![word]) == seq![text::trim_of(word)]
        } else {
            threads::approval_words(seq![word]).len() == 0
        },
{
    reveal_with_fuel(threads::approval_words, 2);
    assert(seq![word].drop_last() =~= Seq::<Seq<char>>::empty());
    assert(Seq::<Seq<char>>::empty().push(text::trim_of(word)) =~= seq![text::trim_of(word)]);
}

/// What the user decides of a permission is what the server is told: `accept` once, `always` from
/// now on, and a rejection in every other case. Without a decision it is accepted.
pub proof fn law_decision_reaches_the_server(request_id: JsonView, result: JsonView)
    requires
        result.get("answers"@) is None,
        result.get("reject"@) != Some(JsonView::Bool(true)),
    ensures
        ({
            let reply = threads::server_response(request_id, result).1.get("reply"@);
            match result.get("decision"@) {
                Some(JsonView::Text(decision)) => if decision == "accept"@ {
                    reply == reading::found("once"@)
                } else if decision == "always"@ {
                    reply == reading::found("always"@)
                } else {
                    reply == reading::found("reject"@)
                },
                _ => reply == reading::found("once"@),
            }
        }),
{
    broadcast use reading::group_reading;
    lemma_request_names();
}

/// Answers to questions reach the server as lists, and the entry of each question counts only where
/// its name is a place and it holds a list of answers.
pub proof fn law_answers_reach_the_server(request_id: JsonView, result: JsonView, key: Seq<char>, entry: JsonView)
    requires
        result.get("answers"@) is Some,
    ensures
        threads::server_response(request_id, result).1.get("answers"@) matches Some(JsonView::Array(_)),
        match threads::question_answer((key, entry)) {
            Some((place, answers)) => text::parsed_u64(key) == Some(place) && entry.get("answers"@) == Some(answers)
                && answers is Array,
            None => text::parsed_u64(key) is None || (text::parsed_u64(key)->0) > usize::MAX || !(entry.get(
                "answers"@,
            ) matches Some(JsonView::Array(_))),
        },
{
    broadcast use reading::group_reading;
    lemma_request_names();
}

/// Answers are taken one by one.
pub proof fn law_answers_are_taken_one_by_one(a: Seq<(Seq<char>, JsonView)>, b: Seq<(Seq<char>, JsonView)>)
    ensures
        threads::question_answers(a + b) == threads::question_answers(a) + threads::question_answers(b),
        threads::question_answers(Seq::empty()).len() == 0,
    decreases b.len(),
{
    if b.len() == 0 {
        assert(a + b =~= a);
        assert(threads::question_answers(a) + threads::question_answers(b) =~= threads::question_answers(a));
    } else {
        let init = b.drop_last();
        law_answers_are_taken_one_by_one(a, init);
        assert((a + b).drop_last() =~= a + init);
        assert((a + b).last() == b.last());
        assert(threads::question_answers(a + b) =~= threads::question_answers(a) + threads::question_answers(b));
    }
}

} // verus!
