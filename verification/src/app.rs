use vstd::prelude::*;

use crate::workspace::workspace_info_spec;
use crate::workspace::Workspace;
use crate::workspace::WorkspaceInfo;
use crate::workspace::WorktreeSpaceMembership;

verus! {

/// An event published to API subscribers.
#[derive(Clone, Debug, PartialEq, Eq)]
pub enum Event {
    /// A workspace was opened.
    WorkspaceCreated { workspace_id: String, workspace: WorkspaceInfo },
    /// A workspace got a new label.
    WorkspaceRenamed { workspace_id: String, label: String },
    /// A workspace was closed; `workspace` is its last description.
    WorkspaceClosed { workspace_id: String, workspace: Option<WorkspaceInfo> },
    /// An existing workspace was placed in a repository group.
    WorkspaceWorktreeChanged { workspace_id: String, worktree: WorktreeSpaceMembership },
}

/// The payload of a successful response.
#[derive(Clone, Debug, PartialEq, Eq)]
pub enum ResponseResult {
    /// The request was carried out; nothing more to report.
    Done,
    WorkspaceList { workspaces: Vec<WorkspaceInfo> },
    WorkspaceInfo { workspace: WorkspaceInfo },
    WorkspaceCreated { workspace: WorkspaceInfo },
}

/// The answer to one API request.
#[derive(Clone, Debug, PartialEq, Eq)]
pub enum Response {
    Success { id: String, result: ResponseResult },
    Error { id: String, code: String, message: String },
}

/// Names the workspace that a request is about.
#[derive(Clone, Debug, PartialEq, Eq)]
pub struct WorkspaceTarget {
    pub workspace_id: String,
}

/// Parameters of a rename request.
#[derive(Clone, Debug, PartialEq, Eq)]
pub struct WorkspaceRenameParams {
    pub workspace_id: String,
    pub label: String,
}

/// Parameters of a create request. `cwd` (see `creation_cwd`) and `env` are
/// consumed before the launch: the new workspace's terminal is started in that
/// directory with that environment. `focus` and `label` apply once it exists.
#[derive(Clone, Debug, PartialEq, Eq)]
pub struct WorkspaceCreateParams {
    pub cwd: Option<String>,
    pub focus: bool,
    pub label: Option<String>,
    pub env: Vec<(String, String)>,
}

/// Why a new workspace could not be started.
#[derive(Clone, Debug, PartialEq, Eq)]
pub enum LaunchError {
    /// The requested environment was refused, with the error code and message to report.
    InvalidEnv { code: String, message: String },
    /// The workspace's terminal could not be started.
    SpawnFailed { message: String },
}

/// The application state that the workspace requests read and change.
#[derive(Debug)]
pub struct App {
    pub workspaces: Vec<Workspace>,
    /// Index of the focused workspace.
    pub selected: usize,
    /// Panes that host a plugin.
    pub plugin_panes: Vec<u64>,
    /// Events published so far, oldest first.
    pub events: Vec<Event>,
    /// A session save has been requested.
    pub session_save_pending: bool,
    /// A linked worktree whose removal was requested from the user interface.
    pub request_remove_linked_worktree: Option<String>,
}

/// `i` is the first position of a workspace whose id is `id`.
pub open spec fn is_first_with_id(ws: Seq<Workspace>, id: Seq<char>, i: int) -> bool {
    &&& 0 <= i < ws.len()
    &&& ws[i].id@ == id
    &&& forall|j: int| 0 <= j < i ==> #[trigger] ws[j].id@ != id
}

/// The position of the workspace that a public id names, if any.
pub open spec fn workspace_index(ws: Seq<Workspace>, id: Seq<char>) -> Option<int> {
    if exists|i: int| is_first_with_id(ws, id, i) {
        Some(choose|i: int| is_first_with_id(ws, id, i))
    } else {
        None
    }
}

impl App {
    /// An application with no workspaces and no events.
    pub fn new() -> (r: App)
        ensures
            r.workspaces@.len() == 0,
            r.selected == 0,
            r.plugin_panes@.len() == 0,
            r.events@.len() == 0,
            !r.session_save_pending,
            r.request_remove_linked_worktree is None,
            r.wf(),
    {
        App {
            workspaces: Vec::new(),
            selected: 0,
            plugin_panes: Vec::new(),
            events: Vec::new(),
            session_save_pending: false,
            request_remove_linked_worktree: None,
        }
    }

    /// The focus points at a workspace, or at 0 when there is none.
    pub open spec fn wf(&self) -> bool {
        ||| self.selected < self.workspaces@.len()
        ||| (self.workspaces@.len() == 0 && self.selected == 0)
    }

    /// Focus, plugin panes, session save request and worktree removal request agree.
    pub open spec fn same_settings(&self, other: &App) -> bool {
        &&& self.selected == other.selected
        &&& self.plugin_panes@ == other.plugin_panes@
        &&& self.session_save_pending == other.session_save_pending
        &&& self.request_remove_linked_worktree == other.request_remove_linked_worktree
    }

    /// The description of the workspace at `idx` in this state.
    pub open spec fn info_at(&self, idx: int) -> WorkspaceInfo {
        workspace_info_spec(self.workspaces@, self.selected as int, idx)
    }

    /// Looks up the workspace that a public id names: the first one with that id.
    pub fn parse_workspace_id(&self, workspace_id: &String) -> (r: Option<usize>)
        ensures
            r matches Some(i) ==> Some(i as int) == workspace_index(self.workspaces@, workspace_id@),
            r is None ==> workspace_index(self.workspaces@, workspace_id@) is None,
    {
        let mut i: usize = 0;
        while i < self.workspaces.len()
            invariant
                i <= self.workspaces@.len(),
                forall|j: int| 0 <= j < i ==> #[trigger] self.workspaces@[j].id@ != workspace_id@,
            decreases self.workspaces@.len() - i,
        {
            if self.workspaces[i].id == *workspace_id {
                proof {
                    let ws = self.workspaces@;
                    let id = workspace_id@;
                    assert(is_first_with_id(ws, id, i as int));
                    let k = choose|k: int| is_first_with_id(ws, id, k);
                    if k < i {
                        assert(ws[k].id@ != id);
                    }
                    if k > i {
                        assert(ws[i as int].id@ != id);
                    }
                }
                return Some(i);
            }
            i = i + 1;
        }
        None
    }

    /// The public id of the workspace at `index`.
    pub fn public_workspace_id(&self, index: usize) -> (r: String)
        requires
            index < self.workspaces@.len(),
        ensures
            r == self.workspaces@[index as int].id,
    {
        self.workspaces[index].id.clone()
    }

    /// The description of the workspace at `index`.
    pub fn workspace_info(&self, index: usize) -> (r: WorkspaceInfo)
        requires
            index < self.workspaces@.len(),
        ensures
            r == self.info_at(index as int),
    {
        let ws = &self.workspaces[index];
        let label = match &ws.custom_name {
            Some(name) => Some(name.clone()),
            None => None,
        };
        let worktree = match &ws.worktree_space {
            Some(m) => Some(m.duplicate()),
            None => None,
        };
        WorkspaceInfo {
            workspace_id: ws.id.clone(),
            label,
            focused: index == self.selected,
            worktree,
        }
    }

    /// Publishes an event.
    pub fn emit_event(&mut self, event: Event)
        ensures
            final(self).events@ == old(self).events@.push(event),
            final(self).workspaces@ == old(self).workspaces@,
            final(self).same_settings(old(self)),
    {
        self.events.push(event);
    }

    /// Requests that the session be saved.
    pub fn schedule_session_save(&mut self)
        ensures
            final(self).session_save_pending,
            final(self).workspaces@ == old(self).workspaces@,
            final(self).events@ == old(self).events@,
            final(self).selected == old(self).selected,
            final(self).plugin_panes@ == old(self).plugin_panes@,
            final(self).request_remove_linked_worktree == old(self).request_remove_linked_worktree,
    {
        self.session_save_pending = true;
    }

    /// Focuses the workspace at `index`.
    pub fn switch_workspace(&mut self, index: usize)
        requires
            index < old(self).workspaces@.len(),
        ensures
            final(self).selected == index,
            final(self).workspaces@ == old(self).workspaces@,
            final(self).events@ == old(self).events@,
            final(self).plugin_panes@ == old(self).plugin_panes@,
            final(self).session_save_pending == old(self).session_save_pending,
            final(self).request_remove_linked_worktree == old(self).request_remove_linked_worktree,
    {
        self.selected = index;
    }

    /// Removes the focused workspace; the focus stays at the same position,
    /// or moves to the last workspace when that position is gone.
    pub fn close_selected_workspace(&mut self)
        requires
            old(self).selected < old(self).workspaces@.len(),
        ensures
            final(self).workspaces@ == old(self).workspaces@.remove(old(self).selected as int),
            final(self).selected == (if old(self).selected < final(self).workspaces@.len() {
                old(self).selected
            } else if final(self).workspaces@.len() > 0 {
                (final(self).workspaces@.len() - 1) as usize
            } else {
                0
            }),
            final(self).wf(),
            final(self).events@ == old(self).events@,
            final(self).plugin_panes@ == old(self).plugin_panes@,
            final(self).session_save_pending == old(self).session_save_pending,
            final(self).request_remove_linked_worktree == old(self).request_remove_linked_worktree,
    {
        self.workspaces.remove(self.selected);
        if self.selected >= self.workspaces.len() {
            if self.workspaces.len() > 0 {
                self.selected = self.workspaces.len() - 1;
            } else {
                self.selected = 0;
            }
        }
    }

    /// Places the workspace at `ws_idx` in a repository group; `announce`
    /// publishes the change.
    pub fn set_worktree_membership(
        &mut self,
        ws_idx: usize,
        membership: WorktreeSpaceMembership,
        announce: bool,
    )
        requires
            ws_idx < old(self).workspaces@.len(),
        ensures
            final(self).workspaces@ == old(self).workspaces@.update(
                ws_idx as int,
                (Workspace { worktree_space: Some(membership), ..old(self).workspaces@[ws_idx as int] }),
            ),
            final(self).events@ == (if announce {
                old(self).events@.push(
                    Event::WorkspaceWorktreeChanged {
                        workspace_id: old(self).workspaces@[ws_idx as int].id,
                        worktree: membership,
                    },
                )
            } else {
                old(self).events@
            }),
            final(self).same_settings(old(self)),
    {
        if announce {
            let event = Event::WorkspaceWorktreeChanged {
                workspace_id: self.workspaces[ws_idx].id.clone(),
                worktree: membership.duplicate(),
            };
            self.events.push(event);
        }
        self.workspaces[ws_idx].worktree_space = Some(membership);
    }

    /// Adds a started workspace at the end; `focus` moves the focus to it.
    pub fn create_workspace(&mut self, workspace: Workspace, focus: bool) -> (index: usize)
        ensures
            index == old(self).workspaces@.len(),
            final(self).workspaces@ == old(self).workspaces@.push(workspace),
            final(self).selected == (if focus { index } else { old(self).selected }),
            final(self).events@ == old(self).events@,
            final(self).plugin_panes@ == old(self).plugin_panes@,
            final(self).session_save_pending == old(self).session_save_pending,
            final(self).request_remove_linked_worktree == old(self).request_remove_linked_worktree,
    {
        let index = self.workspaces.len();
        self.workspaces.push(workspace);
        if focus {
            self.selected = index;
        }
        index
    }
}

} // verus!
