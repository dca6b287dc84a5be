use vstd::prelude::*;

use crate::app::is_first_with_id;
use crate::app::workspace_index;
use crate::app::App;
use crate::app::Event;
use crate::app::Response;
use crate::app::LaunchError;
use crate::app::ResponseResult;
use crate::app::WorkspaceCreateParams;
use crate::app::WorkspaceRenameParams;
use crate::app::WorkspaceTarget;
use crate::workspace::first_main_checkout;
use crate::workspace::grouping_space_spec;
use crate::workspace::parent_checkout_spec;
use crate::workspace::GitSpaceMetadata;
use crate::workspace::Tab;
use crate::workspace::Workspace;
use crate::workspace::WorkspaceInfo;
use crate::workspace::WorktreeSpaceMembership;

verus! {

/// `r` is the error that answers a request naming the unknown workspace `workspace_id`.
pub open spec fn is_not_found(r: Response, id: String, workspace_id: Seq<char>) -> bool {
    &&& r matches Response::Error { id: rid, code, message }
    &&& rid == id
    &&& code@ == "workspace_not_found"@
    &&& message@ == "workspace "@ + workspace_id + " not found"@
}

/// The descriptions of all workspaces, in order.
pub open spec fn all_infos(app: App) -> Seq<WorkspaceInfo> {
    Seq::new(app.workspaces@.len(), |i: int| app.info_at(i))
}

/// The panes of all tabs, tab by tab.
pub open spec fn tabs_pane_ids(tabs: Seq<Tab>) -> Seq<u64>
    decreases tabs.len(),
{
    if tabs.len() == 0 {
        Seq::empty()
    } else {
        tabs_pane_ids(tabs.drop_last()) + tabs.last().pane_ids@
    }
}

/// `panes` without every pane that `closed` holds, order kept.
pub open spec fn without_panes(panes: Seq<u64>, closed: Seq<u64>) -> Seq<u64>
    decreases panes.len(),
{
    if panes.len() == 0 {
        Seq::empty()
    } else {
        without_panes(panes.drop_last(), closed) + (if closed.contains(panes.last()) {
            Seq::empty()
        } else {
            seq![panes.last()]
        })
    }
}

/// Where the focus goes when the workspace at `index` of `count` closes.
pub open spec fn selection_after_close(index: int, count: int) -> usize {
    if index < count - 1 {
        index as usize
    } else if count - 1 > 0 {
        (count - 2) as usize
    } else {
        0
    }
}

/// The list answers with one entry per workspace, in order, and entry `i`
/// describes workspace `i` exactly as a get request for it does: its id, its
/// custom name as label, whether it is focused, and its group membership.
pub proof fn list_entries_describe_each_workspace(app: App)
    ensures
        all_infos(app).len() == app.workspaces@.len(),
        forall|i: int|
            0 <= i < app.workspaces@.len() ==> {
                &&& #[trigger] all_infos(app)[i] == app.info_at(i)
                &&& all_infos(app)[i].workspace_id == app.workspaces@[i].id
                &&& all_infos(app)[i].label == app.workspaces@[i].custom_name
                &&& all_infos(app)[i].focused == (i == app.selected)
                &&& all_infos(app)[i].worktree == app.workspaces@[i].worktree_space
            },
{
}

/// The description of a workspace carries its id, its custom name as label,
/// whether it is the focused one, and its group membership.
pub proof fn description_shows_the_workspace(app: App, i: int)
    requires
        0 <= i < app.workspaces@.len(),
    ensures
        app.info_at(i).workspace_id == app.workspaces@[i].id,
        app.info_at(i).label == app.workspaces@[i].custom_name,
        app.info_at(i).focused == (i == app.selected),
        app.info_at(i).worktree == app.workspaces@[i].worktree_space,
{
}

/// A pane id occurs among the tabs' panes exactly when some tab holds it.
proof fn lemma_tabs_pane_ids_contains(tabs: Seq<Tab>, p: u64)
    ensures
        tabs_pane_ids(tabs).contains(p) <==> exists|t: int, k: int|
            0 <= t < tabs.len() && 0 <= k < tabs[t].pane_ids@.len() && #[trigger] tabs[t].pane_ids@[k]
                == p,
    decreases tabs.len(),
{
    if tabs.len() > 0 {
        let init = tabs.drop_last();
        let last = tabs.last().pane_ids@;
        lemma_tabs_pane_ids_contains(init, p);
        let all = tabs_pane_ids(tabs);
        assert(all == tabs_pane_ids(init) + last);
        if all.contains(p) {
            let i = choose|i: int| 0 <= i < all.len() && all[i] == p;
            if i < tabs_pane_ids(init).len() {
                assert(tabs_pane_ids(init)[i] == p);
                assert(tabs_pane_ids(init).contains(p));
                let (t, k) = choose|t: int, k: int|
                    0 <= t < init.len() && 0 <= k < init[t].pane_ids@.len()
                        && #[trigger] init[t].pane_ids@[k] == p;
                assert(tabs[t] == init[t]);
            } else {
                let k = i - tabs_pane_ids(init).len();
                assert(last[k] == p);
                assert(tabs[tabs.len() - 1].pane_ids@[k] == p);
            }
        }
        if exists|t: int, k: int|
            0 <= t < tabs.len() && 0 <= k < tabs[t].pane_ids@.len() && #[trigger] tabs[t].pane_ids@[k]
                == p {
            let (t, k) = choose|t: int, k: int|
                0 <= t < tabs.len() && 0 <= k < tabs[t].pane_ids@.len()
                    && #[trigger] tabs[t].pane_ids@[k] == p;
            if t < tabs.len() - 1 {
                assert(init[t] == tabs[t]);
                assert(init[t].pane_ids@[k] == p);
                let j = choose|j: int| 0 <= j < tabs_pane_ids(init).len() && tabs_pane_ids(init)[j] == p;
                assert(all[j] == p);
            } else {
                assert(all[tabs_pane_ids(init).len() + k] == p);
            }
        }
    }
}

/// A pane stays exactly when it was there and is not among the closed ones.
proof fn lemma_without_panes_contains(panes: Seq<u64>, closed: Seq<u64>, q: u64)
    ensures
        without_panes(panes, closed).contains(q) <==> (panes.contains(q) && !closed.contains(q)),
    decreases panes.len(),
{
    if panes.len() > 0 {
        let init = panes.drop_last();
        lemma_without_panes_contains(init, closed, q);
        let rest = without_panes(init, closed);
        let tail = if closed.contains(panes.last()) {
            Seq::<u64>::empty()
        } else {
            seq![panes.last()]
        };
        let all = without_panes(panes, closed);
        assert(all == rest + tail);
        if all.contains(q) {
            let i = choose|i: int| 0 <= i < all.len() && all[i] == q;
            if i < rest.len() {
                assert(rest[i] == q);
                assert(rest.contains(q));
                let j = choose|j: int| 0 <= j < init.len() && init[j] == q;
                assert(panes[j] == q);
            } else {
                assert(tail[i - rest.len()] == q);
                assert(panes[panes.len() - 1] == q);
            }
        }
        if panes.contains(q) && !closed.contains(q) {
            let j = choose|j: int| 0 <= j < panes.len() && panes[j] == q;
            if j < panes.len() - 1 {
                assert(init[j] == q);
                assert(rest.contains(q));
                let i = choose|i: int| 0 <= i < rest.len() && rest[i] == q;
                assert(all[i] == q);
            } else {
                assert(all[rest.len() as int] == q);
            }
        }
    }
}

/// After a close, no pane of any tab of the closed workspace is still a plugin
/// pane, every other plugin pane is kept, and no pane is added.
pub proof fn close_forgets_exactly_the_closed_panes(plugin_panes: Seq<u64>, tabs: Seq<Tab>)
    ensures
        forall|t: int, k: int|
            0 <= t < tabs.len() && 0 <= k < tabs[t].pane_ids@.len() ==> !without_panes(
                plugin_panes,
                tabs_pane_ids(tabs),
            ).contains(#[trigger] tabs[t].pane_ids@[k]),
        forall|q: u64|
            plugin_panes.contains(q) && (forall|t: int, k: int|
                0 <= t < tabs.len() && 0 <= k < tabs[t].pane_ids@.len() ==> #[trigger] tabs[t].pane_ids@[k]
                    != q) ==> #[trigger] without_panes(plugin_panes, tabs_pane_ids(tabs)).contains(q),
        forall|q: u64|
            #[trigger] without_panes(plugin_panes, tabs_pane_ids(tabs)).contains(q)
                ==> plugin_panes.contains(q),
{
    let closed = tabs_pane_ids(tabs);
    assert forall|t: int, k: int|
        0 <= t < tabs.len() && 0 <= k < tabs[t].pane_ids@.len() implies !without_panes(
        plugin_panes,
        closed,
    ).contains(#[trigger] tabs[t].pane_ids@[k]) by {
        let p = tabs[t].pane_ids@[k];
        lemma_tabs_pane_ids_contains(tabs, p);
        lemma_without_panes_contains(plugin_panes, closed, p);
    }
    assert forall|q: u64|
        plugin_panes.contains(q) && (forall|t: int, k: int|
            0 <= t < tabs.len() && 0 <= k < tabs[t].pane_ids@.len() ==> #[trigger] tabs[t].pane_ids@[k]
                != q) implies #[trigger] without_panes(plugin_panes, closed).contains(q) by {
        lemma_tabs_pane_ids_contains(tabs, q);
        lemma_without_panes_contains(plugin_panes, closed, q);
    }
    assert forall|q: u64| #[trigger] without_panes(plugin_panes, closed).contains(q) implies plugin_panes.contains(q) by {
        lemma_without_panes_contains(plugin_panes, closed, q);
    }
}

/// The error answer for a request that names an unknown workspace.
pub fn workspace_not_found(id: String, workspace_id: &str) -> (r: Response)
    ensures
        is_not_found(r, id, workspace_id@),
{
    let message = String::from_str("workspace ").concat(workspace_id).concat(" not found");
    Response::Error { id, code: String::from_str("workspace_not_found"), message }
}

/// The panes of every tab of `ws`.
fn workspace_pane_ids(ws: &Workspace) -> (r: Vec<u64>)
    ensures
        r@ == tabs_pane_ids(ws.tabs@),
{
    let mut out: Vec<u64> = Vec::new();
    let mut t: usize = 0;
    while t < ws.tabs.len()
        invariant
            t <= ws.tabs@.len(),
            out@ == tabs_pane_ids(ws.tabs@.take(t as int)),
        decreases ws.tabs@.len() - t,
    {
        let panes = &ws.tabs[t].pane_ids;
        let ghost before = out@;
        let mut p: usize = 0;
        while p < panes.len()
            invariant
                p <= panes@.len(),
                out@ == before + panes@.take(p as int),
            decreases panes@.len() - p,
        {
            out.push(panes[p]);
            p = p + 1;
            assert(panes@.take(p as int) == panes@.take(p - 1).push(panes@[p - 1]));
        }
        assert(panes@.take(p as int) == panes@);
        assert(ws.tabs@.take(t + 1).drop_last() == ws.tabs@.take(t as int));
        t = t + 1;
    }
    assert(ws.tabs@.take(t as int) == ws.tabs@);
    out
}

/// `pane` is one of `panes`.
fn holds_pane(panes: &Vec<u64>, pane: u64) -> (r: bool)
    ensures
        r == panes@.contains(pane),
{
    let mut i: usize = 0;
    while i < panes.len()
        invariant
            i <= panes@.len(),
            forall|j: int| 0 <= j < i ==> panes@[j] != pane,
        decreases panes@.len() - i,
    {
        if panes[i] == pane {
            assert(panes@[i as int] == pane);
            return true;
        }
        i = i + 1;
    }
    false
}

/// `panes` without the panes in `closed`.
fn remove_panes(panes: &Vec<u64>, closed: &Vec<u64>) -> (r: Vec<u64>)
    ensures
        r@ == without_panes(panes@, closed@),
{
    let mut out: Vec<u64> = Vec::new();
    let mut i: usize = 0;
    while i < panes.len()
        invariant
            i <= panes@.len(),
            out@ == without_panes(panes@.take(i as int), closed@),
        decreases panes@.len() - i,
    {
        let ghost prefix = panes@.take(i + 1);
        assert(prefix.drop_last() == panes@.take(i as int));
        if !holds_pane(closed, panes[i]) {
            out.push(panes[i]);
        }
        i = i + 1;
        assert(out@ =~= without_panes(prefix, closed@));
    }
    assert(panes@.take(i as int) == panes@);
    out
}

impl App {
    /// Answers a list request: the description of every workspace, in order.
    pub fn handle_workspace_list(&mut self, id: String) -> (r: Response)
        ensures
            *final(self) == *old(self),
            r matches Response::Success {
                id: rid,
                result: ResponseResult::WorkspaceList { workspaces },
            } && rid == id && workspaces@ == all_infos(*old(self)),
    {
        let mut workspaces: Vec<WorkspaceInfo> = Vec::new();
        let mut idx: usize = 0;
        while idx < self.workspaces.len()
            invariant
                idx <= self.workspaces@.len(),
                workspaces@ =~= Seq::new(idx as nat, |i: int| self.info_at(i)),
            decreases self.workspaces@.len() - idx,
        {
            workspaces.push(self.workspace_info(idx));
            idx = idx + 1;
        }
        Response::Success { id, result: ResponseResult::WorkspaceList { workspaces } }
    }

    /// Answers a get request: the description of the named workspace.
    pub fn handle_workspace_get(&mut self, id: String, target: WorkspaceTarget) -> (r: Response)
        ensures
            *final(self) == *old(self),
            match workspace_index(old(self).workspaces@, target.workspace_id@) {
                None => is_not_found(r, id, target.workspace_id@),
                Some(i) => r == Response::Success {
                    id,
                    result: ResponseResult::WorkspaceInfo { workspace: old(self).info_at(i) },
                },
            },
    {
        let Some(index) = self.parse_workspace_id(&target.workspace_id) else {
            return workspace_not_found(id, target.workspace_id.as_str());
        };
        if index >= self.workspaces.len() {
            return workspace_not_found(id, target.workspace_id.as_str());
        }
        Response::Success {
            id,
            result: ResponseResult::WorkspaceInfo { workspace: self.workspace_info(index) },
        }
    }

    /// Answers a focus request: focuses the named workspace and describes it.
    pub fn handle_workspace_focus(&mut self, id: String, target: WorkspaceTarget) -> (r: Response)
        ensures
            old(self).wf() ==> final(self).wf(),
            match workspace_index(old(self).workspaces@, target.workspace_id@) {
                None => *final(self) == *old(self) && is_not_found(r, id, target.workspace_id@),
                Some(i) => {
                    &&& final(self).selected == i
                    &&& final(self).workspaces@ == old(self).workspaces@
                    &&& final(self).events@ == old(self).events@
                    &&& final(self).plugin_panes@ == old(self).plugin_panes@
                    &&& final(self).session_save_pending == old(self).session_save_pending
                    &&& final(self).request_remove_linked_worktree
                        == old(self).request_remove_linked_worktree
                    &&& r == Response::Success {
                        id,
                        result: ResponseResult::WorkspaceInfo { workspace: final(self).info_at(i) },
                    }
                },
            },
    {
        let Some(index) = self.parse_workspace_id(&target.workspace_id) else {
            return workspace_not_found(id, target.workspace_id.as_str());
        };
        if index >= self.workspaces.len() {
            return workspace_not_found(id, target.workspace_id.as_str());
        }
        self.switch_workspace(index);
        Response::Success {
            id,
            result: ResponseResult::WorkspaceInfo { workspace: self.workspace_info(index) },
        }
    }

    /// Answers a rename request: labels the named workspace, asks for a
    /// session save, publishes the rename and describes the workspace.
    pub fn handle_workspace_rename(&mut self, id: String, params: WorkspaceRenameParams) -> (r:
        Response)
        ensures
            old(self).wf() ==> final(self).wf(),
            match workspace_index(old(self).workspaces@, params.workspace_id@) {
                None => *final(self) == *old(self) && is_not_found(r, id, params.workspace_id@),
                Some(i) => {
                    &&& final(self).workspaces@ == old(self).workspaces@.update(
                        i,
                        (Workspace {
                            custom_name: Some(params.label),
                            ..old(self).workspaces@[i]
                        }),
                    )
                    &&& final(self).session_save_pending
                    &&& final(self).events@ == old(self).events@.push(
                        Event::WorkspaceRenamed {
                            workspace_id: old(self).workspaces@[i].id,
                            label: params.label,
                        },
                    )
                    &&& final(self).selected == old(self).selected
                    &&& final(self).plugin_panes@ == old(self).plugin_panes@
                    &&& final(self).request_remove_linked_worktree
                        == old(self).request_remove_linked_worktree
                    &&& r == Response::Success {
                        id,
                        result: ResponseResult::WorkspaceInfo { workspace: final(self).info_at(i) },
                    }
                },
            },
    {
        let Some(index) = self.parse_workspace_id(&params.workspace_id) else {
            return workspace_not_found(id, params.workspace_id.as_str());
        };
        if index >= self.workspaces.len() {
            return workspace_not_found(id, params.workspace_id.as_str());
        }
        self.workspaces[index].set_custom_name(params.label.clone());
        self.schedule_session_save();
        let workspace_id = self.public_workspace_id(index);
        self.emit_event(Event::WorkspaceRenamed { workspace_id, label: params.label });
        Response::Success {
            id,
            result: ResponseResult::WorkspaceInfo { workspace: self.workspace_info(index) },
        }
    }

    /// Answers a close request: removes the named workspace, forgets the
    /// plugins of its panes and publishes its last description.
    pub fn handle_workspace_close(&mut self, id: String, target: WorkspaceTarget) -> (r: Response)
        ensures
            old(self).wf() ==> final(self).wf(),
            match workspace_index(old(self).workspaces@, target.workspace_id@) {
                None => *final(self) == *old(self) && is_not_found(r, id, target.workspace_id@),
                Some(i) => {
                    &&& final(self).workspaces@ == old(self).workspaces@.remove(i)
                    &&& final(self).selected == selection_after_close(
                        i,
                        old(self).workspaces@.len() as int,
                    )
                    &&& final(self).plugin_panes@ == without_panes(
                        old(self).plugin_panes@,
                        tabs_pane_ids(old(self).workspaces@[i].tabs@),
                    )
                    &&& final(self).events@ == old(self).events@.push(
                        Event::WorkspaceClosed {
                            workspace_id: old(self).workspaces@[i].id,
                            workspace: Some(old(self).info_at(i)),
                        },
                    )
                    &&& final(self).session_save_pending == old(self).session_save_pending
                    &&& final(self).request_remove_linked_worktree
                        == old(self).request_remove_linked_worktree
                    &&& r == Response::Success { id, result: ResponseResult::Done }
                },
            },
    {
        let Some(index) = self.parse_workspace_id(&target.workspace_id) else {
            return workspace_not_found(id, target.workspace_id.as_str());
        };
        if index >= self.workspaces.len() {
            return workspace_not_found(id, target.workspace_id.as_str());
        }
        let workspace_id = self.public_workspace_id(index);
        let workspace = self.workspace_info(index);
        let pane_ids = workspace_pane_ids(&self.workspaces[index]);
        self.selected = index;
        self.close_selected_workspace();
        self.plugin_panes = remove_panes(&self.plugin_panes, &pane_ids);
        self.emit_event(Event::WorkspaceClosed { workspace_id, workspace: Some(workspace) });
        Response::Success { id, result: ResponseResult::Done }
    }
}

/// The repository group a workspace would join, with the workspace's position.
pub struct WorkspaceGitSpaceForGrouping {
    pub ws_idx: usize,
    pub key: String,
    pub label: String,
    pub checkout_path: String,
    pub parent_checkout_path: String,
    pub is_linked_worktree: bool,
}

impl WorkspaceGitSpaceForGrouping {
    /// The membership this candidate stands for.
    pub open spec fn membership_spec(self) -> WorktreeSpaceMembership {
        WorktreeSpaceMembership {
            key: self.key,
            label: self.label,
            repo_root: self.parent_checkout_path,
            checkout_path: self.checkout_path,
            is_linked_worktree: self.is_linked_worktree,
        }
    }

    /// The membership this candidate stands for.
    fn to_membership(&self) -> (r: WorktreeSpaceMembership)
        ensures
            r == self.membership_spec(),
    {
        WorktreeSpaceMembership {
            key: self.key.clone(),
            label: self.label.clone(),
            repo_root: self.parent_checkout_path.clone(),
            checkout_path: self.checkout_path.clone(),
            is_linked_worktree: self.is_linked_worktree,
        }
    }
}

/// The workspace belongs to the repository group `key`.
pub open spec fn in_group(w: Workspace, key: Seq<char>) -> bool {
    &&& grouping_space_spec(w) is Some
    &&& grouping_space_spec(w)->0.key@ == key
}

/// Positions below `n` of the workspaces in the repository group `key`, ascending.
pub open spec fn group_indices(ws: Seq<Workspace>, key: Seq<char>, n: int) -> Seq<int>
    decreases n,
{
    if n <= 0 {
        Seq::empty()
    } else {
        group_indices(ws, key, n - 1) + (if in_group(ws[n - 1], key) {
            seq![n - 1]
        } else {
            Seq::empty()
        })
    }
}

/// The repository key of the workspace at `created`.
pub open spec fn created_key(ws: Seq<Workspace>, created: int) -> Seq<char> {
    grouping_space_spec(ws[created])->0.key@
}

/// The workspaces of the repository of the workspace at `created`, in order.
pub open spec fn created_group(ws: Seq<Workspace>, created: int) -> Seq<int> {
    group_indices(ws, created_key(ws, created), ws.len() as int)
}

/// The workspace at `created` is a checkout, at least two workspaces are
/// checkouts of its repository, and one of them is the main checkout.
pub open spec fn forms_worktree_group(ws: Seq<Workspace>, created: int) -> bool {
    &&& 0 <= created < ws.len()
    &&& grouping_space_spec(ws[created]) is Some
    &&& created_group(ws, created).len() >= 2
    &&& exists|k: int|
        0 <= k < created_group(ws, created).len() && !grouping_space_spec(
            ws[#[trigger] created_group(ws, created)[k]],
        )->0.is_linked_worktree
}

/// The workspace with its group membership assigned.
pub open spec fn with_membership(w: Workspace) -> Workspace {
    Workspace { worktree_space: grouping_space_spec(w), ..w }
}

/// The workspaces after the group of the workspace at `created` is formed:
/// each checkout of its repository gets its membership, the rest are kept.
pub open spec fn grouped_workspaces(ws: Seq<Workspace>, created: int) -> Seq<Workspace> {
    if forms_worktree_group(ws, created) {
        Seq::new(
            ws.len(),
            |j: int|
                if in_group(ws[j], created_key(ws, created)) {
                    with_membership(ws[j])
                } else {
                    ws[j]
                },
        )
    } else {
        ws
    }
}

/// The announcements for the members `g`, in order, leaving out `created` itself.
pub open spec fn membership_announcements(ws: Seq<Workspace>, created: int, g: Seq<int>) -> Seq<
    Event,
>
    decreases g.len(),
{
    if g.len() == 0 {
        Seq::empty()
    } else {
        membership_announcements(ws, created, g.drop_last()) + (if g.last() == created {
            Seq::empty()
        } else {
            seq![
                Event::WorkspaceWorktreeChanged {
                    workspace_id: ws[g.last()].id,
                    worktree: grouping_space_spec(ws[g.last()])->0,
                },
            ]
        })
    }
}

/// The events that forming the group of the workspace at `created` publishes.
pub open spec fn grouping_events(ws: Seq<Workspace>, created: int) -> Seq<Event> {
    if forms_worktree_group(ws, created) {
        membership_announcements(ws, created, created_group(ws, created))
    } else {
        Seq::empty()
    }
}

/// The group positions are ascending and below `n`.
proof fn lemma_group_indices_sorted(ws: Seq<Workspace>, key: Seq<char>, n: int)
    requires
        n <= ws.len(),
    ensures
        forall|a: int|
            0 <= a < group_indices(ws, key, n).len() ==> 0 <= #[trigger] group_indices(
                ws,
                key,
                n,
            )[a] < n,
        forall|a: int, b: int|
            0 <= a < b < group_indices(ws, key, n).len() ==> #[trigger] group_indices(ws, key, n)[a]
                < #[trigger] group_indices(ws, key, n)[b],
    decreases n,
{
    if n > 0 {
        lemma_group_indices_sorted(ws, key, n - 1);
        let prev = group_indices(ws, key, n - 1);
        let cur = group_indices(ws, key, n);
        assert forall|a: int| 0 <= a < cur.len() implies 0 <= #[trigger] cur[a] < n by {
            if a < prev.len() {
                assert(cur[a] == prev[a]);
            }
        }
        assert forall|a: int, b: int| 0 <= a < b < cur.len() implies #[trigger] cur[a]
            < #[trigger] cur[b] by {
            assert(cur[a] == prev[a]);
            if b < prev.len() {
                assert(cur[b] == prev[b]);
            } else {
                assert(cur[b] == n - 1);
            }
        }
    }
}

/// A position is in the group exactly when its workspace belongs to the repository.
proof fn lemma_group_indices_members(ws: Seq<Workspace>, key: Seq<char>, n: int)
    requires
        0 <= n <= ws.len(),
    ensures
        forall|j: int|
            #[trigger] group_indices(ws, key, n).contains(j) <==> (0 <= j < n && in_group(
                ws[j],
                key,
            )),
    decreases n,
{
    if n > 0 {
        lemma_group_indices_members(ws, key, n - 1);
        let prev = group_indices(ws, key, n - 1);
        let cur = group_indices(ws, key, n);
        assert forall|j: int| #[trigger] cur.contains(j) <==> (0 <= j < n && in_group(ws[j], key)) by {
            if cur.contains(j) {
                let k = choose|k: int| 0 <= k < cur.len() && cur[k] == j;
                if k < prev.len() {
                    assert(prev[k] == j);
                    assert(prev.contains(j));
                }
            }
            if 0 <= j < n && in_group(ws[j], key) {
                if j < n - 1 {
                    assert(prev.contains(j));
                    let k = choose|k: int| 0 <= k < prev.len() && prev[k] == j;
                    assert(cur[k] == j);
                } else {
                    assert(cur[prev.len() as int] == j);
                }
            }
        }
    }
}

/// Workspaces that agree on group membership agree on the group positions.
proof fn lemma_group_indices_agree(ws1: Seq<Workspace>, ws2: Seq<Workspace>, key: Seq<char>, n: int)
    requires
        n <= ws1.len(),
        ws1.len() == ws2.len(),
        forall|j: int| 0 <= j < n ==> in_group(ws1[j], key) == in_group(ws2[j], key),
    ensures
        group_indices(ws1, key, n) == group_indices(ws2, key, n),
    decreases n,
{
    if n > 0 {
        lemma_group_indices_agree(ws1, ws2, key, n - 1);
    }
}

/// When the workspace at `created` forms a repository group, every checkout
/// of its repository ends up in the group under that repository's key, with
/// its own main-or-linked flag; the workspace at `created` is one of them, one
/// member is the main checkout, and no other workspace changes.
pub proof fn forming_a_group_joins_every_checkout_of_the_repository(
    ws: Seq<Workspace>,
    created: int,
)
    requires
        forms_worktree_group(ws, created),
    ensures
        ({
            let grouped = grouped_workspaces(ws, created);
            let key = created_key(ws, created);
            &&& grouped.len() == ws.len()
            &&& in_group(ws[created], key)
            &&& forall|j: int|
                0 <= j < ws.len() ==> (#[trigger] grouped[j]).id == ws[j].id
            &&& forall|j: int|
                0 <= j < ws.len() && in_group(ws[j], key) ==> {
                    &&& (#[trigger] grouped[j]).worktree_space == grouping_space_spec(ws[j])
                    &&& grouped[j].worktree_space->0.key@ == key
                }
            &&& forall|j: int|
                0 <= j < ws.len() && !in_group(ws[j], key) ==> #[trigger] grouped[j] == ws[j]
            &&& exists|j: int|
                0 <= j < ws.len() && in_group(ws[j], key) && !(
                #[trigger] grouped[j]).worktree_space->0.is_linked_worktree
        }),
{
    let key = created_key(ws, created);
    let g = created_group(ws, created);
    let grouped = grouped_workspaces(ws, created);
    lemma_group_indices_sorted(ws, key, ws.len() as int);
    lemma_group_indices_members(ws, key, ws.len() as int);
    let k = choose|k: int|
        0 <= k < g.len() && !grouping_space_spec(ws[#[trigger] g[k]])->0.is_linked_worktree;
    assert(g.contains(g[k]));
    assert(in_group(ws[g[k]], key));
    assert(!grouped[g[k]].worktree_space->0.is_linked_worktree);
}

/// Forming the group a second time changes no workspace, since the grouped
/// workspaces already carry their memberships; it announces the same members again.
pub proof fn forming_a_group_again_changes_nothing(ws: Seq<Workspace>, created: int)
    requires
        0 <= created < ws.len(),
    ensures
        grouped_workspaces(grouped_workspaces(ws, created), created) == grouped_workspaces(
            ws,
            created,
        ),
        grouping_events(grouped_workspaces(ws, created), created) == grouping_events(ws, created),
{
    let grouped = grouped_workspaces(ws, created);
    if forms_worktree_group(ws, created) {
        let key = created_key(ws, created);
        assert forall|j: int| 0 <= j < ws.len() implies grouping_space_spec(#[trigger] grouped[j])
            == grouping_space_spec(ws[j]) by {
            if in_group(ws[j], key) {
                assert(grouped[j] == with_membership(ws[j]));
            }
        }
        assert(created_key(grouped, created) == key);
        lemma_group_indices_agree(ws, grouped, key, ws.len() as int);
        assert(created_group(grouped, created) == created_group(ws, created));
        let g = created_group(ws, created);
        lemma_group_indices_sorted(ws, key, ws.len() as int);
        let k = choose|k: int|
            0 <= k < g.len() && !grouping_space_spec(ws[#[trigger] g[k]])->0.is_linked_worktree;
        assert(!grouping_space_spec(grouped[g[k]])->0.is_linked_worktree);
        assert(forms_worktree_group(grouped, created));
        assert(grouped_workspaces(grouped, created) =~= grouped);
        assert forall|a: int| 0 <= a < g.len() implies ws[#[trigger] g[a]].id == grouped[g[a]].id
            && grouping_space_spec(ws[g[a]]) == grouping_space_spec(grouped[g[a]]) by {
            assert(0 <= g[a] < ws.len());
        }
        lemma_announcements_agree(ws, grouped, created, g);
    }
}

/// `listed[e]` is a main checkout of the repository `key`.
pub open spec fn is_listed_main_checkout(listed: Seq<Option<GitSpaceMetadata>>, key: Seq<char>, e: int) -> bool {
    &&& 0 <= e < listed.len()
    &&& listed[e] is Some
    &&& listed[e]->0.key@ == key
    &&& !listed[e]->0.is_linked_worktree
}

/// The search through the listing finds its first main checkout of `key`, or nothing.
proof fn lemma_first_main_checkout(key: Seq<char>, listed: Seq<Option<GitSpaceMetadata>>)
    ensures
        forall|e: int|
            #[trigger] is_listed_main_checkout(listed, key, e) && (forall|i: int|
                0 <= i < e ==> !is_listed_main_checkout(listed, key, i)) ==> first_main_checkout(
                key,
                listed,
            ) == listed[e],
        (forall|i: int| 0 <= i < listed.len() ==> !is_listed_main_checkout(listed, key, i))
            ==> first_main_checkout(key, listed) is None,
    decreases listed.len(),
{
    if listed.len() > 0 {
        let rest = listed.drop_first();
        lemma_first_main_checkout(key, rest);
        assert forall|e: int|
            #[trigger] is_listed_main_checkout(listed, key, e) && (forall|i: int|
                0 <= i < e ==> !is_listed_main_checkout(listed, key, i)) implies first_main_checkout(
            key,
            listed,
        ) == listed[e] by {
            if e > 0 {
                assert(!is_listed_main_checkout(listed, key, 0));
                assert(is_listed_main_checkout(rest, key, e - 1));
                assert forall|i: int| 0 <= i < e - 1 implies !is_listed_main_checkout(rest, key, i) by {
                    assert(!is_listed_main_checkout(listed, key, i + 1));
                }
            }
        }
        if forall|i: int| 0 <= i < listed.len() ==> !is_listed_main_checkout(listed, key, i) {
            assert(!is_listed_main_checkout(listed, key, 0));
            assert forall|i: int| 0 <= i < rest.len() implies !is_listed_main_checkout(rest, key, i) by {
                assert(!is_listed_main_checkout(listed, key, i + 1));
            }
        }
    }
}

/// The main checkout of a space's repository: a main checkout is its own; a
/// linked worktree's is the first main checkout of the same repository that
/// the listing shows, and the worktree itself when the listing shows none.
pub proof fn parent_checkout_is_the_first_listed_main_checkout(
    space: GitSpaceMetadata,
    listed: Seq<Option<GitSpaceMetadata>>,
)
    ensures
        !space.is_linked_worktree ==> parent_checkout_spec(space, listed) == space.repo_root,
        forall|e: int|
            space.is_linked_worktree && #[trigger] is_listed_main_checkout(listed, space.key@, e) && (
            forall|i: int| 0 <= i < e ==> !is_listed_main_checkout(listed, space.key@, i))
                ==> parent_checkout_spec(space, listed) == listed[e]->0.repo_root,
        space.is_linked_worktree && (forall|i: int|
            0 <= i < listed.len() ==> !is_listed_main_checkout(listed, space.key@, i))
            ==> parent_checkout_spec(space, listed) == space.repo_root,
{
    lemma_first_main_checkout(space.key@, listed);
}

/// `w` is a checkout of the repository `key` by its git facts.
pub open spec fn is_checkout_of(w: Workspace, key: Seq<char>) -> bool {
    &&& w.git_space is Some
    &&& w.git_space->0.key@ == key
}

/// When no workspace has a membership yet and a new checkout is added, the
/// repository of the new workspace is grouped as soon as at least two open
/// workspaces are checkouts of it and one of them is the main checkout, in
/// whatever number and whether the new one is the main checkout or a linked
/// worktree. Each of those checkouts gets a membership of the repository
/// taken from its own git facts (key, label, its own root as checkout path,
/// its main-or-linked flag; a main checkout is its own parent), keeping its
/// id, name and git facts; every other workspace stays as it was.
pub proof fn new_checkout_groups_every_open_checkout_of_its_repository(
    ws: Seq<Workspace>,
    created: int,
    other: int,
    main: int,
)
    requires
        0 <= created < ws.len(),
        forall|j: int| 0 <= j < ws.len() ==> (#[trigger] ws[j]).worktree_space is None,
        ws[created].git_space is Some,
        0 <= other < ws.len(),
        other != created,
        is_checkout_of(ws[other], ws[created].git_space->0.key@),
        0 <= main < ws.len(),
        is_checkout_of(ws[main], ws[created].git_space->0.key@),
        !ws[main].git_space->0.is_linked_worktree,
    ensures
        ({
            let key = ws[created].git_space->0.key@;
            let grouped = grouped_workspaces(ws, created);
            &&& grouped.len() == ws.len()
            &&& forall|j: int|
                0 <= j < ws.len() && is_checkout_of(ws[j], key) ==> {
                    let g = ws[j].git_space->0;
                    let m = (#[trigger] grouped[j]).worktree_space->0;
                    &&& grouped[j].worktree_space is Some
                    &&& m.key == g.key
                    &&& m.label == g.label
                    &&& m.checkout_path == g.repo_root
                    &&& m.is_linked_worktree == g.is_linked_worktree
                    &&& !g.is_linked_worktree ==> m.repo_root == g.repo_root
                    &&& grouped[j].id == ws[j].id
                    &&& grouped[j].custom_name == ws[j].custom_name
                    &&& grouped[j].git_space == ws[j].git_space
                }
            &&& forall|j: int|
                0 <= j < ws.len() && !is_checkout_of(ws[j], key) ==> #[trigger] grouped[j] == ws[j]
        }),
{
    let key = ws[created].git_space->0.key@;
    let n = ws.len() as int;
    assert forall|j: int| 0 <= j < n implies in_group(ws[j], key) == is_checkout_of(#[trigger] ws[j], key) by {
        assert(ws[j].worktree_space is None);
    }
    assert(created_key(ws, created) == key) by {
        assert(ws[created].worktree_space is None);
    }
    let g = created_group(ws, created);
    lemma_group_indices_members(ws, key, n);
    lemma_group_indices_sorted(ws, key, n);
    assert(in_group(ws[created], key));
    assert(in_group(ws[other], key));
    assert(in_group(ws[main], key));
    assert(g.contains(created));
    assert(g.contains(other));
    assert(g.contains(main));
    let a = choose|a: int| 0 <= a < g.len() && g[a] == created;
    let b = choose|b: int| 0 <= b < g.len() && g[b] == other;
    assert(a != b);
    assert(g.len() >= 2);
    let c = choose|c: int| 0 <= c < g.len() && g[c] == main;
    assert(!grouping_space_spec(ws[g[c]])->0.is_linked_worktree) by {
        assert(ws[main].worktree_space is None);
    }
    assert(forms_worktree_group(ws, created));
    let grouped = grouped_workspaces(ws, created);
    assert forall|j: int| 0 <= j < n && is_checkout_of(ws[j], key) implies {
        let gs = ws[j].git_space->0;
        let m = (#[trigger] grouped[j]).worktree_space->0;
        &&& grouped[j].worktree_space is Some
        &&& m.key == gs.key
        &&& m.label == gs.label
        &&& m.checkout_path == gs.repo_root
        &&& m.is_linked_worktree == gs.is_linked_worktree
        &&& !gs.is_linked_worktree ==> m.repo_root == gs.repo_root
        &&& grouped[j].id == ws[j].id
        &&& grouped[j].custom_name == ws[j].custom_name
        &&& grouped[j].git_space == ws[j].git_space
    } by {
        assert(ws[j].worktree_space is None);
        assert(in_group(ws[j], key));
        assert(grouped[j] == with_membership(ws[j]));
    }
}

/// When no workspace has a membership yet, adding a checkout that is the only
/// open checkout of its repository, or whose repository has no open main
/// checkout, changes no workspace.
pub proof fn new_checkout_without_a_group_changes_nothing(ws: Seq<Workspace>, created: int)
    requires
        0 <= created < ws.len(),
        forall|j: int| 0 <= j < ws.len() ==> (#[trigger] ws[j]).worktree_space is None,
        ws[created].git_space is Some,
        (forall|j: int|
            0 <= j < ws.len() && j != created ==> !is_checkout_of(
                #[trigger] ws[j],
                ws[created].git_space->0.key@,
            )) || (forall|j: int|
            0 <= j < ws.len() && is_checkout_of(#[trigger] ws[j], ws[created].git_space->0.key@)
                ==> ws[j].git_space->0.is_linked_worktree),
    ensures
        grouped_workspaces(ws, created) == ws,
        grouping_events(ws, created).len() == 0,
{
    let key = ws[created].git_space->0.key@;
    let n = ws.len() as int;
    if forms_worktree_group(ws, created) {
        assert(created_key(ws, created) == key) by {
            assert(ws[created].worktree_space is None);
        }
        let g = created_group(ws, created);
        lemma_group_indices_members(ws, key, n);
        lemma_group_indices_sorted(ws, key, n);
        let k = choose|k: int|
            0 <= k < g.len() && !grouping_space_spec(ws[#[trigger] g[k]])->0.is_linked_worktree;
        assert(g.contains(g[k]));
        assert(ws[g[k]].worktree_space is None);
        assert(is_checkout_of(ws[g[k]], key));
        assert(g.contains(g[0]) && g.contains(g[1]));
        assert(ws[g[0]].worktree_space is None && ws[g[1]].worktree_space is None);
        assert(g[0] < g[1]);
        if g[0] != created {
            assert(is_checkout_of(ws[g[0]], key));
        } else {
            assert(is_checkout_of(ws[g[1]], key));
        }
    }
}

/// Announcements depend only on the announced workspaces' ids and memberships.
proof fn lemma_announcements_agree(
    ws1: Seq<Workspace>,
    ws2: Seq<Workspace>,
    created: int,
    g: Seq<int>,
)
    requires
        forall|a: int|
            0 <= a < g.len() ==> ws1[#[trigger] g[a]].id == ws2[g[a]].id && grouping_space_spec(
                ws1[g[a]],
            ) == grouping_space_spec(ws2[g[a]]),
    ensures
        membership_announcements(ws1, created, g) == membership_announcements(ws2, created, g),
    decreases g.len(),
{
    if g.len() > 0 {
        let last = g.len() - 1;
        assert(ws1[g[last]].id == ws2[g[last]].id);
        lemma_announcements_agree(ws1, ws2, created, g.drop_last());
    }
}

/// Relabelling a workspace keeps the lookup of every id.
pub proof fn relabel_keeps_lookup(ws: Seq<Workspace>, i: int, label: String, id: Seq<char>)
    requires
        0 <= i < ws.len(),
    ensures
        workspace_index(
            ws.update(i, (Workspace { custom_name: Some(label), ..ws[i] })),
            id,
        ) == workspace_index(ws, id),
{
    let ws2 = ws.update(i, (Workspace { custom_name: Some(label), ..ws[i] }));
    assert forall|k: int| is_first_with_id(ws2, id, k) <==> is_first_with_id(ws, id, k) by {
        if is_first_with_id(ws, id, k) {
            assert forall|j: int| 0 <= j < k implies #[trigger] ws2[j].id@ != id by {
                assert(ws[j].id@ != id);
            }
        }
        if is_first_with_id(ws2, id, k) {
            assert forall|j: int| 0 <= j < k implies #[trigger] ws[j].id@ != id by {
                assert(ws2[j].id@ != id);
            }
        }
    }
}

/// When ids are unique, a closed workspace can no longer be found by its id.
pub proof fn closed_workspace_is_not_found(ws: Seq<Workspace>, id: Seq<char>)
    requires
        workspace_index(ws, id) is Some,
        forall|a: int, b: int|
            0 <= a < ws.len() && 0 <= b < ws.len() && a != b ==> #[trigger] ws[a].id@
                != #[trigger] ws[b].id@,
    ensures
        workspace_index(ws.remove(workspace_index(ws, id)->0), id) is None,
{
    let i = workspace_index(ws, id)->0;
    let rest = ws.remove(i);
    assert(is_first_with_id(ws, id, i));
    assert forall|k: int| !is_first_with_id(rest, id, k) by {
        if 0 <= k < rest.len() && rest[k].id@ == id {
            if k < i {
                assert(rest[k] == ws[k]);
            } else {
                assert(rest[k] == ws[k + 1]);
            }
        }
    }
}

/// Root of the main checkout of `space`'s repository: the checkout itself
/// when it is the main one, else the first main checkout of the same
/// repository in `listed_worktrees` (what `git worktree list` reports), else
/// the checkout itself.
pub fn parent_checkout_path_for_space(
    space: &GitSpaceMetadata,
    listed_worktrees: &Vec<Option<GitSpaceMetadata>>,
) -> (r: String)
    ensures
        r == parent_checkout_spec(*space, listed_worktrees@),
{
    if !space.is_linked_worktree {
        return space.repo_root.clone();
    }
    let ghost key = space.key@;
    let mut i: usize = 0;
    assert(listed_worktrees@.skip(0) =~= listed_worktrees@);
    while i < listed_worktrees.len()
        invariant
            i <= listed_worktrees@.len(),
            key == space.key@,
            space.is_linked_worktree,
            first_main_checkout(key, listed_worktrees@) == first_main_checkout(
                key,
                listed_worktrees@.skip(i as int),
            ),
        decreases listed_worktrees@.len() - i,
    {
        let ghost rest = listed_worktrees@.skip(i as int);
        assert(rest[0] == listed_worktrees@[i as int]);
        assert(rest.drop_first() == listed_worktrees@.skip(i + 1));
        match &listed_worktrees[i] {
            Some(entry) => {
                if entry.key == space.key && !entry.is_linked_worktree {
                    assert(first_main_checkout(key, rest) == rest[0]);
                    return entry.repo_root.clone();
                }
            },
            None => {},
        }
        assert(first_main_checkout(key, rest) == first_main_checkout(key, rest.drop_first()));
        i = i + 1;
    }
    assert(listed_worktrees@.skip(i as int).len() == 0);
    space.repo_root.clone()
}

/// The directory a new workspace starts in: the requested one, else the fallback.
pub open spec fn start_directory(requested: Option<String>, fallback: String) -> String {
    match requested {
        Some(cwd) => cwd,
        None => fallback,
    }
}

/// The directory a new workspace starts in: the one the request names, else
/// `fallback` (derived by the caller from the current workspace), whichever
/// workspace is focused.
pub fn creation_cwd(requested: Option<String>, fallback: String) -> (r: String)
    ensures
        r == start_directory(requested, fallback),
{
    match requested {
        Some(cwd) => cwd,
        None => fallback,
    }
}

/// Some candidate is a main checkout.
fn has_main_checkout(spaces: &Vec<WorkspaceGitSpaceForGrouping>) -> (r: bool)
    ensures
        r == exists|k: int| 0 <= k < spaces@.len() && !(#[trigger] spaces@[k]).is_linked_worktree,
{
    let mut i: usize = 0;
    while i < spaces.len()
        invariant
            i <= spaces@.len(),
            forall|k: int| 0 <= k < i ==> (#[trigger] spaces@[k]).is_linked_worktree,
        decreases spaces@.len() - i,
    {
        if !spaces[i].is_linked_worktree {
            assert(!spaces@[i as int].is_linked_worktree);
            return true;
        }
        i = i + 1;
    }
    false
}

impl App {
    /// The repository group that the workspace at `ws_idx` would join, if
    /// there is such a workspace and it is a checkout.
    pub fn workspace_git_space_for_grouping(&self, ws_idx: usize) -> (r: Option<
        WorkspaceGitSpaceForGrouping,
    >)
        ensures
            ws_idx >= self.workspaces@.len() ==> r is None,
            ws_idx < self.workspaces@.len() ==> match grouping_space_spec(
                self.workspaces@[ws_idx as int],
            ) {
                None => r is None,
                Some(m) => r is Some && r->0.ws_idx == ws_idx && r->0.membership_spec() == m,
            },
    {
        if ws_idx >= self.workspaces.len() {
            return None;
        }
        let ws = &self.workspaces[ws_idx];
        if let Some(membership) = &ws.worktree_space {
            return Some(
                WorkspaceGitSpaceForGrouping {
                    ws_idx,
                    key: membership.key.clone(),
                    label: membership.label.clone(),
                    checkout_path: membership.checkout_path.clone(),
                    parent_checkout_path: membership.repo_root.clone(),
                    is_linked_worktree: membership.is_linked_worktree,
                },
            );
        }
        let Some(space) = &ws.git_space else {
            return None;
        };
        let parent_checkout_path = parent_checkout_path_for_space(space, &ws.listed_worktrees);
        Some(
            WorkspaceGitSpaceForGrouping {
                ws_idx,
                key: space.key.clone(),
                label: space.label.clone(),
                checkout_path: space.repo_root.clone(),
                parent_checkout_path,
                is_linked_worktree: space.is_linked_worktree,
            },
        )
    }

    /// Forms the repository group of the workspace at `created_idx`: when at
    /// least two workspaces are checkouts of its repository and one of them is
    /// the main checkout, each of them gets its membership, and every member
    /// other than the new workspace is announced.
    pub fn infer_workspace_worktree_group(&mut self, created_idx: usize)
        ensures
            old(self).wf() ==> final(self).wf(),
            final(self).workspaces@ == grouped_workspaces(old(self).workspaces@, created_idx as int),
            final(self).events@ == old(self).events@ + grouping_events(
                old(self).workspaces@,
                created_idx as int,
            ),
            final(self).same_settings(old(self)),
    {
        let ghost ws0 = self.workspaces@;
        let ghost events0 = self.events@;
        let Some(created_space) = self.workspace_git_space_for_grouping(created_idx) else {
            assert(events0 + Seq::<Event>::empty() =~= events0);
            return;
        };
        let ghost key = created_space.key@;
        let ghost n = ws0.len() as int;
        assert(key == created_key(ws0, created_idx as int));
        let mut same_repo_spaces: Vec<WorkspaceGitSpaceForGrouping> = Vec::new();
        let mut i: usize = 0;
        while i < self.workspaces.len()
            invariant
                self.workspaces@ == ws0,
                self.events@ == events0,
                created_space.key@ == key,
                i <= ws0.len(),
                same_repo_spaces@.len() == group_indices(ws0, key, i as int).len(),
                forall|k: int|
                    0 <= k < same_repo_spaces@.len() ==> {
                        &&& (#[trigger] same_repo_spaces@[k]).ws_idx == group_indices(
                            ws0,
                            key,
                            i as int,
                        )[k]
                        &&& same_repo_spaces@[k].membership_spec() == grouping_space_spec(
                            ws0[same_repo_spaces@[k].ws_idx as int],
                        )->0
                    },
            decreases ws0.len() - i,
        {
            let ghost prev = group_indices(ws0, key, i as int);
            if let Some(space) = self.workspace_git_space_for_grouping(i) {
                if space.key == created_space.key {
                    same_repo_spaces.push(space);
                }
            }
            i = i + 1;
            assert(group_indices(ws0, key, i as int) == prev + (if in_group(ws0[i - 1], key) {
                seq![i - 1]
            } else {
                Seq::empty()
            }));
        }
        let ghost g = group_indices(ws0, key, n);
        proof {
            lemma_group_indices_sorted(ws0, key, n);
            lemma_group_indices_members(ws0, key, n);
        }
        let has_main = has_main_checkout(&same_repo_spaces);
        if same_repo_spaces.len() < 2 || !has_main {
            proof {
                if forms_worktree_group(ws0, created_idx as int) {
                    let k = choose|k: int|
                        0 <= k < g.len() && !grouping_space_spec(ws0[#[trigger] g[k]])->0.is_linked_worktree;
                    assert(!same_repo_spaces@[k].is_linked_worktree);
                }
            }
            assert(events0 + Seq::<Event>::empty() =~= events0);
            return;
        }
        proof {
            let k = choose|k: int|
                0 <= k < same_repo_spaces@.len() && !(#[trigger] same_repo_spaces@[k]).is_linked_worktree;
            assert(!grouping_space_spec(ws0[g[k]])->0.is_linked_worktree);
            assert(forms_worktree_group(ws0, created_idx as int));
        }
        let mut k: usize = 0;
        while k < same_repo_spaces.len()
            invariant
                forms_worktree_group(ws0, created_idx as int),
                key == created_key(ws0, created_idx as int),
                g == created_group(ws0, created_idx as int),
                n == ws0.len(),
                same_repo_spaces@.len() == g.len(),
                forall|a: int|
                    0 <= a < g.len() ==> 0 <= #[trigger] g[a] < n,
                forall|a: int, b: int| 0 <= a < b < g.len() ==> #[trigger] g[a] < #[trigger] g[b],
                forall|j: int| #[trigger] g.contains(j) <==> (0 <= j < n && in_group(ws0[j], key)),
                forall|a: int|
                    0 <= a < same_repo_spaces@.len() ==> {
                        &&& (#[trigger] same_repo_spaces@[a]).ws_idx == g[a]
                        &&& same_repo_spaces@[a].membership_spec() == grouping_space_spec(
                            ws0[g[a]],
                        )->0
                    },
                k <= g.len(),
                self.workspaces@.len() == n,
                forall|j: int|
                    0 <= j < n ==> #[trigger] self.workspaces@[j] == (if g.take(k as int).contains(
                        j,
                    ) {
                        with_membership(ws0[j])
                    } else {
                        ws0[j]
                    }),
                self.events@ == events0 + membership_announcements(
                    ws0,
                    created_idx as int,
                    g.take(k as int),
                ),
                self.same_settings(old(self)),
            decreases g.len() - k,
        {
            let membership = same_repo_spaces[k].to_membership();
            let ws_idx = same_repo_spaces[k].ws_idx;
            proof {
                if g.take(k as int).contains(ws_idx as int) {
                    let a = choose|a: int| 0 <= a < k && #[trigger] g.take(k as int)[a] == ws_idx;
                    assert(g[a] < g[k as int]);
                }
                assert(g.take(k + 1) == g.take(k as int).push(g[k as int]));
                assert(g.take(k + 1).drop_last() == g.take(k as int));
                assert(in_group(ws0[ws_idx as int], key)) by {
                    assert(g.contains(ws_idx as int));
                }
            }
            self.set_worktree_membership(ws_idx, membership, ws_idx != created_idx);
            k = k + 1;
            proof {
                assert forall|j: int| 0 <= j < n implies #[trigger] self.workspaces@[j] == (if g.take(
                    k as int,
                ).contains(j) {
                    with_membership(ws0[j])
                } else {
                    ws0[j]
                }) by {
                    if j == ws_idx {
                        assert(g.take(k as int)[k - 1] == j);
                    } else {
                        if g.take(k as int).contains(j) {
                            let a = choose|a: int| 0 <= a < k && #[trigger] g.take(k as int)[a] == j;
                            assert(a < k - 1);
                            assert(g.take(k - 1)[a] == j);
                        }
                        if g.take(k - 1).contains(j) {
                            let a = choose|a: int| 0 <= a < k - 1 && #[trigger] g.take(k - 1)[a] == j;
                            assert(g.take(k as int)[a] == j);
                        }
                    }
                }
            }
        }
        proof {
            assert(g.take(k as int) == g);
            assert(self.workspaces@ =~= grouped_workspaces(ws0, created_idx as int));
        }
    }

    /// Answers a create request once the workspace's terminal was started (or
    /// not): adds the workspace, which records the directory it was started in
    /// (`params.cwd`, else `fallback_cwd`, the directory the caller derived from
    /// the current workspace), forms its repository group, applies the
    /// requested label, publishes the opening and describes the new workspace.
    /// The caller starts the terminal in `creation_cwd(params.cwd, fallback_cwd)`
    /// with the environment that `params.env` normalizes to; a refused
    /// environment or a failed start arrives as `launched`.
    pub fn handle_workspace_create(
        &mut self,
        id: String,
        params: WorkspaceCreateParams,
        fallback_cwd: String,
        launched: Result<Workspace, LaunchError>,
    ) -> (r: Response)
        ensures
            old(self).wf() ==> final(self).wf(),
            match launched {
                Err(LaunchError::InvalidEnv { code, message }) => {
                    &&& *final(self) == *old(self)
                    &&& r == Response::Error { id, code, message }
                },
                Err(LaunchError::SpawnFailed { message }) => {
                    &&& *final(self) == *old(self)
                    &&& r matches Response::Error { id: rid, code, message: m }
                    &&& rid == id
                    &&& code@ == "workspace_create_failed"@
                    &&& m == message
                },
                Ok(w) => {
                    let n = old(self).workspaces@.len() as int;
                    let started = Workspace {
                        identity_cwd: start_directory(params.cwd, fallback_cwd),
                        ..w
                    };
                    let pushed = old(self).workspaces@.push(started);
                    let grouped = grouped_workspaces(pushed, n);
                    &&& final(self).workspaces@ == match params.label {
                        Some(label) => grouped.update(
                            n,
                            (Workspace { custom_name: Some(label), ..grouped[n] }),
                        ),
                        None => grouped,
                    }
                    &&& final(self).workspaces@.len() == n + 1
                    &&& final(self).workspaces@[n].identity_cwd == start_directory(
                        params.cwd,
                        fallback_cwd,
                    )
                    &&& final(self).workspaces@[n].custom_name == match params.label {
                        Some(label) => Some(label),
                        None => w.custom_name,
                    }
                    &&& forall|j: int|
                        0 <= j < n ==> (#[trigger] final(self).workspaces@[j]).custom_name
                            == old(self).workspaces@[j].custom_name
                    &&& final(self).selected == (if params.focus {
                        n as usize
                    } else {
                        old(self).selected
                    })
                    &&& final(self).events@ == old(self).events@ + grouping_events(pushed, n)
                        + seq![
                        Event::WorkspaceCreated {
                            workspace_id: final(self).workspaces@[n].id,
                            workspace: final(self).info_at(n),
                        },
                    ]
                    &&& final(self).plugin_panes@ == old(self).plugin_panes@
                    &&& final(self).session_save_pending == old(self).session_save_pending
                    &&& final(self).request_remove_linked_worktree
                        == old(self).request_remove_linked_worktree
                    &&& r == Response::Success {
                        id,
                        result: ResponseResult::WorkspaceCreated {
                            workspace: final(self).info_at(n),
                        },
                    }
                },
            },
    {
        let mut workspace = match launched {
            Ok(workspace) => workspace,
            Err(LaunchError::InvalidEnv { code, message }) => {
                return Response::Error { id, code, message };
            },
            Err(LaunchError::SpawnFailed { message }) => {
                return Response::Error {
                    id,
                    code: String::from_str("workspace_create_failed"),
                    message,
                };
            },
        };
        workspace.identity_cwd = creation_cwd(params.cwd, fallback_cwd);
        let index = self.create_workspace(workspace, params.focus);
        self.infer_workspace_worktree_group(index);
        if let Some(label) = params.label {
            self.workspaces[index].set_custom_name(label);
        }
        self.emit_workspace_open_events(index);
        Response::Success {
            id,
            result: ResponseResult::WorkspaceCreated { workspace: self.workspace_info(index) },
        }
    }

    /// Publishes the opening of the workspace at `index`.
    pub fn emit_workspace_open_events(&mut self, index: usize)
        requires
            index < old(self).workspaces@.len(),
        ensures
            final(self).events@ == old(self).events@.push(
                Event::WorkspaceCreated {
                    workspace_id: old(self).workspaces@[index as int].id,
                    workspace: old(self).info_at(index as int),
                },
            ),
            final(self).workspaces@ == old(self).workspaces@,
            final(self).same_settings(old(self)),
    {
        let workspace_id = self.public_workspace_id(index);
        let workspace = self.workspace_info(index);
        self.emit_event(Event::WorkspaceCreated { workspace_id, workspace });
    }
}

} // verus!
