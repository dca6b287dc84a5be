use vstd::prelude::*;

verus! {

/// What git reports about one checkout directory.
#[derive(Clone, Debug, PartialEq, Eq)]
pub struct GitSpaceMetadata {
    /// Identifies the repository; every worktree of one repository shares it.
    pub key: String,
    /// Human readable name of the repository.
    pub label: String,
    /// Root directory of this checkout.
    pub repo_root: String,
    /// The checkout is a linked worktree (`git worktree add`), not the main one.
    pub is_linked_worktree: bool,
}

/// A workspace's place in a group of checkouts of one repository.
#[derive(Clone, Debug, PartialEq, Eq)]
pub struct WorktreeSpaceMembership {
    pub key: String,
    pub label: String,
    /// Root of the repository's main checkout.
    pub repo_root: String,
    /// Root of this workspace's own checkout.
    pub checkout_path: String,
    pub is_linked_worktree: bool,
}

impl WorktreeSpaceMembership {
    /// A field-by-field copy.
    pub fn duplicate(&self) -> (r: Self)
        ensures
            r == *self,
    {
        WorktreeSpaceMembership {
            key: self.key.clone(),
            label: self.label.clone(),
            repo_root: self.repo_root.clone(),
            checkout_path: self.checkout_path.clone(),
            is_linked_worktree: self.is_linked_worktree,
        }
    }
}

/// One tab of a workspace: the panes of its layout.
#[derive(Clone, Debug, PartialEq, Eq)]
pub struct Tab {
    pub pane_ids: Vec<u64>,
}

/// A workspace as the request handlers see it.
#[derive(Clone, Debug, PartialEq, Eq)]
pub struct Workspace {
    /// The public id by which requests name the workspace.
    pub id: String,
    /// A label given by the user, if any.
    pub custom_name: Option<String>,
    /// The directory the workspace was started in.
    pub identity_cwd: String,
    /// Membership in a group of checkouts of one repository, once assigned.
    pub worktree_space: Option<WorktreeSpaceMembership>,
    /// Git facts of the workspace's identity directory, if it is a checkout.
    pub git_space: Option<GitSpaceMetadata>,
    /// Git facts of each checkout that `git worktree list` reports for the
    /// repository of `git_space` (an entry is `None` where a listed directory
    /// is not a readable checkout); empty where the listing was not read or failed.
    pub listed_worktrees: Vec<Option<GitSpaceMetadata>>,
    pub tabs: Vec<Tab>,
}

impl Workspace {
    /// A workspace with the given id, no label, no start directory, no git
    /// facts and no tabs.
    pub fn new(id: String) -> (r: Self)
        ensures
            r.id == id,
            r.custom_name is None,
            r.identity_cwd@ == Seq::<char>::empty(),
            r.worktree_space is None,
            r.git_space is None,
            r.listed_worktrees@.len() == 0,
            r.tabs@.len() == 0,
    {
        Workspace {
            id,
            custom_name: None,
            identity_cwd: String::new(),
            worktree_space: None,
            git_space: None,
            listed_worktrees: Vec::new(),
            tabs: Vec::new(),
        }
    }

    /// Gives the workspace a user label.
    pub fn set_custom_name(&mut self, name: String)
        ensures
            *final(self) == (Workspace { custom_name: Some(name), ..*old(self) }),
    {
        self.custom_name = Some(name);
    }

    /// The membership, if one has been assigned.
    pub fn worktree_space(&self) -> (r: Option<&WorktreeSpaceMembership>)
        ensures
            r == match self.worktree_space {
                Some(m) => Some(&m),
                None => None::<&WorktreeSpaceMembership>,
            },
    {
        match &self.worktree_space {
            Some(m) => Some(m),
            None => None,
        }
    }
}

/// The description of a workspace that responses and events carry.
#[derive(Clone, Debug, PartialEq, Eq)]
pub struct WorkspaceInfo {
    pub workspace_id: String,
    pub label: Option<String>,
    pub focused: bool,
    pub worktree: Option<WorktreeSpaceMembership>,
}

/// The description of the workspace at `idx` when `selected` is focused.
pub open spec fn workspace_info_spec(ws: Seq<Workspace>, selected: int, idx: int) -> WorkspaceInfo {
    WorkspaceInfo {
        workspace_id: ws[idx].id,
        label: ws[idx].custom_name,
        focused: idx == selected,
        worktree: ws[idx].worktree_space,
    }
}

/// The first checkout in `listed` that belongs to the repository `key` and is
/// its main (not linked) checkout.
pub open spec fn first_main_checkout(key: Seq<char>, listed: Seq<Option<GitSpaceMetadata>>) -> Option<
    GitSpaceMetadata,
>
    decreases listed.len(),
{
    if listed.len() == 0 {
        None
    } else if listed[0] is Some && listed[0]->0.key@ == key && !listed[0]->0.is_linked_worktree {
        listed[0]
    } else {
        first_main_checkout(key, listed.drop_first())
    }
}

/// Root of the main checkout of `space`'s repository: the checkout itself
/// when it is the main one, else the first main checkout that the listing
/// shows, else (nothing found) the checkout itself.
pub open spec fn parent_checkout_spec(
    space: GitSpaceMetadata,
    listed: Seq<Option<GitSpaceMetadata>>,
) -> String {
    if !space.is_linked_worktree {
        space.repo_root
    } else {
        match first_main_checkout(space.key@, listed) {
            Some(entry) => entry.repo_root,
            None => space.repo_root,
        }
    }
}

/// The repository group a workspace would join: its assigned membership if
/// it has one, else one derived from its git facts, else none.
pub open spec fn grouping_space_spec(w: Workspace) -> Option<WorktreeSpaceMembership> {
    match w.worktree_space {
        Some(m) => Some(m),
        None => match w.git_space {
            Some(s) => Some(
                WorktreeSpaceMembership {
                    key: s.key,
                    label: s.label,
                    repo_root: parent_checkout_spec(s, w.listed_worktrees@),
                    checkout_path: s.repo_root,
                    is_linked_worktree: s.is_linked_worktree,
                },
            ),
            None => None,
        },
    }
}

} // verus!
