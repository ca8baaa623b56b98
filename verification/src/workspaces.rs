//! What is known of workspaces.

use vstd::prelude::*;
use vstd::string::*;

use crate::background;
use crate::json::JsonView;
use crate::session_state;
use crate::str_map::StrMap;
use crate::text;
use crate::threads;
use crate::threads::trim_all;

verus! {

/// A workspace, as far as it matters here.
pub struct Workspace {
    pub id: String,
    pub parent_id: Option<String>,
    pub hidden_session_ids: Vec<String>,
}

/// A workspace, as a mathematical value.
pub struct WorkspaceView {
    pub id: Seq<char>,
    pub parent_id: Option<Seq<char>>,
    pub hidden_session_ids: Seq<Seq<char>>,
}

impl View for Workspace {
    type V = WorkspaceView;

    open spec fn view(&self) -> WorkspaceView {
        WorkspaceView {
            id: self.id@,
            parent_id: text::opt_string(self.parent_id),
            hidden_session_ids: text::texts(self.hidden_session_ids@),
        }
    }
}

pub open spec fn workspace_views(list: Seq<Workspace>) -> Seq<WorkspaceView> {
    list.map_values(|w: Workspace| w@)
}

/// Workspaces by identifier; of two with the same one, the later one counts.
pub open spec fn by_id(list: Seq<WorkspaceView>) -> Map<Seq<char>, WorkspaceView>
    decreases list.len(),
{
    if list.len() == 0 {
        Map::empty()
    } else {
        by_id(list.drop_last()).insert(list.last().id, list.last())
    }
}

/// Workspaces by identifier.
pub fn index_workspaces(list: Vec<Workspace>) -> (r: StrMap<Workspace>)
    ensures
        r@ == by_id(workspace_views(list@)),
{
    let mut map: StrMap<Workspace> = StrMap::new();
    let mut rest: Vec<Workspace> = list;
    let ghost all = workspace_views(list@);
    let ghost mut done: int = 0;
    while rest.len() > 0
        invariant
            0 <= done <= all.len(),
            all == workspace_views(list@),
            rest@ == list@.skip(done),
            map@ == by_id(all.take(done)),
        decreases rest@.len(),
    {
        let w: Workspace = rest.remove(0);
        proof {
            assert(w == list@[done]);
            assert(rest@ =~= list@.skip(done + 1));
            assert(all.take(done + 1).drop_last() =~= all.take(done));
            assert(all.take(done + 1).last() == w@);
            done = done + 1;
        }
        let id: String = w.id.clone();
        map.insert(id.as_str(), w);
    }
    assert(all.take(done) =~= all);
    map
}

/// A workspace and its parent, where it has one that is known.
pub open spec fn workspace_and_parent(
    workspaces: Map<Seq<char>, WorkspaceView>,
    workspace_id: Seq<char>,
) -> Result<(WorkspaceView, Option<WorkspaceView>), Seq<char>> {
    match session_state::lookup(workspaces, workspace_id) {
        Some(w) => Ok(
            (
                w,
                match w.parent_id {
                    Some(p) => session_state::lookup(workspaces, p),
                    None => None,
                },
            ),
        ),
        None => Err("workspace not found"@),
    }
}

pub open spec fn result_workspaces(r: Result<(&Workspace, Option<&Workspace>), String>) -> Result<
    (WorkspaceView, Option<WorkspaceView>),
    Seq<char>,
> {
    match r {
        Ok((w, p)) => Ok(
            (
                w@,
                match p {
                    Some(x) => Some(x@),
                    None => None,
                },
            ),
        ),
        Err(e) => Err(e@),
    }
}

/// A workspace and its parent, where it has one that is known.
pub fn resolve_workspace_and_parent<'a>(
    workspaces: &'a StrMap<Workspace>,
    workspace_id: &str,
) -> (r: Result<(&'a Workspace, Option<&'a Workspace>), String>)
    ensures
        result_workspaces(r) == workspace_and_parent(workspaces@, workspace_id@),
{
    match workspaces.get(workspace_id) {
        Some(w) => {
            let parent: Option<&'a Workspace> = match &w.parent_id {
                Some(p) => workspaces.get(p.as_str()),
                None => None,
            };
            Ok((w, parent))
        },
        None => Err("workspace not found".to_owned()),
    }
}

/// The hidden sessions of a workspace: without the white space around them and without the empty
/// ones.
pub open spec fn hidden_sessions(
    workspaces: Map<Seq<char>, WorkspaceView>,
    workspace_id: Seq<char>,
) -> Seq<Seq<char>> {
    match session_state::lookup(workspaces, workspace_id) {
        Some(w) => threads::approval_words(w.hidden_session_ids),
        None => Seq::empty(),
    }
}

/// The hidden sessions of a workspace.
pub fn hidden_session_ids_for_workspace(workspaces: &StrMap<Workspace>, workspace_id: &str) -> (r: Vec<String>)
    ensures
        text::texts(r@) == hidden_sessions(workspaces@, workspace_id@),
{
    match workspaces.get(workspace_id) {
        Some(w) => trim_all(&w.hidden_session_ids),
        None => {
            let empty: Vec<String> = Vec::new();
            assert(text::texts(empty@) =~= Seq::<Seq<char>>::empty());
            empty
        },
    }
}

/// The workspaces after a session of one of them was hidden.
pub open spec fn with_hidden_session(
    workspaces: Map<Seq<char>, WorkspaceView>,
    workspace_id: Seq<char>,
    thread_id: Seq<char>,
) -> Map<Seq<char>, WorkspaceView> {
    let w = workspaces[workspace_id];
    workspaces.insert(
        workspace_id,
        WorkspaceView {
            hidden_session_ids: background::with_hidden(w.hidden_session_ids, thread_id),
            ..w
        },
    )
}

/// Hides a session of a workspace; an error where the workspace is not known.
pub fn remember_hidden_session_id(
    workspaces: &mut StrMap<Workspace>,
    workspace_id: &str,
    thread_id: &str,
) -> (r: Result<(), String>)
    ensures
        if old(workspaces)@.contains_key(workspace_id@) {
            &&& r is Ok
            &&& final(workspaces)@ == with_hidden_session(old(workspaces)@, workspace_id@, thread_id@)
        } else {
            &&& r matches Err(e) && e@ == "workspace not found"@
            &&& final(workspaces)@ == old(workspaces)@
        },
{
    if workspaces.get(workspace_id).is_none() {
        return Err("workspace not found".to_owned());
    }
    let blank: Workspace = Workspace {
        id: String::new(),
        parent_id: None,
        hidden_session_ids: Vec::new(),
    };
    let entry: &mut Workspace = workspaces.entry_or(workspace_id, blank);
    background::remember_hidden(&mut entry.hidden_session_ids, thread_id);
    Ok(())
}

/// A session that was hidden is among the hidden ones, and hiding it once more changes nothing.
pub proof fn law_hidden_session_is_remembered(
    workspaces: Map<Seq<char>, WorkspaceView>,
    workspace_id: Seq<char>,
    thread_id: Seq<char>,
)
    requires
        workspaces.contains_key(workspace_id),
    ensures
        ({
            let after = with_hidden_session(workspaces, workspace_id, thread_id);
            &&& after[workspace_id].hidden_session_ids.contains(thread_id)
            &&& with_hidden_session(after, workspace_id, thread_id) == after
        }),
{
    let after = with_hidden_session(workspaces, workspace_id, thread_id);
    let ids = workspaces[workspace_id].hidden_session_ids;
    if !ids.contains(thread_id) {
        assert(ids.push(thread_id)[ids.len() as int] == thread_id);
    }
    assert(after[workspace_id].hidden_session_ids.contains(thread_id));
    assert(with_hidden_session(after, workspace_id, thread_id) =~= after);
}

proof fn lemma_words_hold(ids: Seq<Seq<char>>, i: int)
    requires
        0 <= i < ids.len(),
        text::trim_of(ids[i]).len() > 0,
    ensures
        threads::approval_words(ids).contains(text::trim_of(ids[i])),
    decreases ids.len(),
{
    let init = ids.drop_last();
    let before = threads::approval_words(init);
    let after = threads::approval_words(ids);
    if i < init.len() {
        lemma_words_hold(init, i);
        let k = choose|k: int| 0 <= k < before.len() && before[k] == text::trim_of(init[i]);
        assert(after[k] == text::trim_of(ids[i]));
    } else {
        assert(after[before.len() as int] == text::trim_of(ids[i]));
    }
}

/// A helper session that was hidden is not listed among the threads of its workspace, unless the
/// hidden ones are asked for. Its identifier is one without white space around it.
pub proof fn law_helper_session_is_not_listed(
    workspaces: Map<Seq<char>, WorkspaceView>,
    workspace_id: Seq<char>,
    thread_id: Seq<char>,
    sessions: Seq<JsonView>,
)
    requires
        workspaces.contains_key(workspace_id),
        thread_id.len() > 0,
        text::trim_of(thread_id) == thread_id,
    ensures
        ({
            let after = with_hidden_session(workspaces, workspace_id, thread_id);
            let listed = threads::thread_entries(sessions, false, hidden_sessions(after, workspace_id).to_set());
            forall|i: int| 0 <= i < listed.len() ==> (#[trigger] listed[i]).get_str("id"@) != Some(thread_id)
        }),
{
    let after = with_hidden_session(workspaces, workspace_id, thread_id);
    let ids = after[workspace_id].hidden_session_ids;
    law_hidden_session_is_remembered(workspaces, workspace_id, thread_id);
    let i = choose|i: int| 0 <= i < ids.len() && ids[i] == thread_id;
    lemma_words_hold(ids, i);
    threads::law_hidden_sessions_stay_hidden(
        sessions,
        hidden_sessions(after, workspace_id).to_set(),
        thread_id,
    );
}

} // verus!
