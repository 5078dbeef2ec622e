//! Workspaces and their tabs.

use vstd::prelude::*;
use vstd::string::*;
use crate::rows::AgentState;
use crate::terminal::{runtime_of, PaneId, RegistryModel, TerminalRuntimeRegistry};
use crate::text::{strip_text_prefix, without_prefix};
use crate::views::{option_view, views};

verus! {

/// The repository that a workspace belongs to.
#[derive(Debug)]
pub struct WorktreeSpace {
    /// What workspaces of one repository share.
    pub key: String,
    /// The name of the repository.
    pub label: String,
    pub is_linked_worktree: bool,
}

/// The view of a [`WorktreeSpace`].
pub struct SpaceModel {
    pub key: Seq<char>,
    pub label: Seq<char>,
    pub is_linked_worktree: bool,
}

impl View for WorktreeSpace {
    type V = SpaceModel;

    open spec fn view(&self) -> SpaceModel {
        SpaceModel {
            key: self.key@,
            label: self.label@,
            is_linked_worktree: self.is_linked_worktree,
        }
    }
}

/// One tab of a workspace.
#[derive(Debug)]
pub struct Tab {
    /// The public id of the tab.
    pub tab_id: String,
    pub display_name: String,
    pub panes: Vec<PaneId>,
    pub focused_pane: PaneId,
    /// What the agents of the tab are doing; empty where there is nothing to say.
    pub activity: String,
    pub state: AgentState,
    pub seen: bool,
}

/// The view of a [`Tab`].
pub struct TabModel {
    pub tab_id: Seq<char>,
    pub display_name: Seq<char>,
    pub panes: Seq<PaneId>,
    pub focused_pane: PaneId,
    pub activity: Seq<char>,
    pub state: AgentState,
    pub seen: bool,
}

impl View for Tab {
    type V = TabModel;

    open spec fn view(&self) -> TabModel {
        TabModel {
            tab_id: self.tab_id@,
            display_name: self.display_name@,
            panes: self.panes@,
            focused_pane: self.focused_pane,
            activity: self.activity@,
            state: self.state,
            seen: self.seen,
        }
    }
}

/// One workspace.
#[derive(Debug)]
pub struct Workspace {
    /// The public id of the workspace.
    pub id: String,
    /// The name that the user gave.
    pub custom_name: Option<String>,
    /// The name of a workspace without a given name, such as that of its directory.
    pub auto_label: String,
    /// The pane whose terminal label names a workspace without a given name.
    pub root_pane: PaneId,
    pub cached_git_branch: Option<String>,
    pub worktree_space: Option<WorktreeSpace>,
    pub tabs: Vec<Tab>,
    pub active_tab: usize,
    /// What the agents of the workspace are doing; empty where there is nothing to say.
    pub activity: String,
    pub state: AgentState,
    pub seen: bool,
}

/// The view of a [`Workspace`].
pub struct WorkspaceModel {
    pub id: Seq<char>,
    pub custom_name: Option<Seq<char>>,
    pub auto_label: Seq<char>,
    pub root_pane: PaneId,
    pub branch: Option<Seq<char>>,
    pub space: Option<SpaceModel>,
    pub tabs: Seq<TabModel>,
    pub active_tab: usize,
    pub activity: Seq<char>,
    pub state: AgentState,
    pub seen: bool,
}

impl View for Workspace {
    type V = WorkspaceModel;

    open spec fn view(&self) -> WorkspaceModel {
        WorkspaceModel {
            id: self.id@,
            custom_name: option_view(self.custom_name),
            auto_label: self.auto_label@,
            root_pane: self.root_pane,
            branch: option_view(self.cached_git_branch),
            space: option_view(self.worktree_space),
            tabs: views(self.tabs@),
            active_tab: self.active_tab,
            activity: self.activity@,
            state: self.state,
            seen: self.seen,
        }
    }
}

impl WorkspaceModel {
    /// The name of the workspace: the given one, else the label of its root terminal, else the
    /// automatic one.
    pub open spec fn display_name(self, runtimes: RegistryModel) -> Seq<char> {
        match self.custom_name {
            Some(name) => name,
            None => match runtime_of(runtimes, self.root_pane) {
                Some(runtime) => match runtime.live_label {
                    Some(label) => label,
                    None => self.auto_label,
                },
                None => self.auto_label,
            },
        }
    }

    /// The repository name of a managed linked worktree, where it has one.
    pub open spec fn repo_name(self) -> Option<Seq<char>> {
        match self.space {
            Some(space) => if space.is_linked_worktree && space.label.len() > 0 {
                Some(space.label)
            } else {
                None
            },
            None => None,
        }
    }

    /// Whether some tab holds pane `pane_id`.
    pub open spec fn has_pane(self, pane_id: PaneId) -> bool {
        exists|t: int| 0 <= t < self.tabs.len() && (#[trigger] self.tabs[t]).panes.contains(pane_id)
    }

    /// The focused pane of the active tab.
    pub open spec fn focused_pane(self) -> Option<PaneId> {
        if self.active_tab < self.tabs.len() {
            Some(self.tabs[self.active_tab as int].focused_pane)
        } else {
            None
        }
    }
}

/// Tests whether `panes` holds `pane_id`.
pub fn panes_contain(panes: &Vec<PaneId>, pane_id: PaneId) -> (b: bool)
    ensures
        b == panes@.contains(pane_id),
{
    let mut i: usize = 0;
    while i < panes.len()
        invariant
            i <= panes@.len(),
            forall|k: int| 0 <= k < i ==> panes@[k] != pane_id,
        decreases panes@.len() - i,
    {
        if panes[i] == pane_id {
            proof {
                assert(panes@[i as int] == pane_id);
            }
            return true;
        }
        i += 1;
    }
    false
}

impl Workspace {
    /// The name of the workspace.
    pub fn display_name_from(&self, terminal_runtimes: &TerminalRuntimeRegistry) -> (r: String)
        ensures
            r@ == self@.display_name(terminal_runtimes@),
    {
        match &self.custom_name {
            Some(name) => name.clone(),
            None => match terminal_runtimes.get(self.root_pane) {
                Some(runtime) => match &runtime.live_label {
                    Some(label) => label.clone(),
                    None => self.auto_label.clone(),
                },
                None => self.auto_label.clone(),
            },
        }
    }

    /// The cached Git branch.
    pub fn branch(&self) -> (r: Option<String>)
        ensures
            option_view(r) == self@.branch,
    {
        match &self.cached_git_branch {
            Some(branch) => Some(branch.clone()),
            None => None,
        }
    }

    /// The focused pane of the active tab.
    pub fn focused_pane_id(&self) -> (r: Option<PaneId>)
        ensures
            r == self@.focused_pane(),
    {
        if self.active_tab < self.tabs.len() {
            Some(self.tabs[self.active_tab].focused_pane)
        } else {
            None
        }
    }

    /// The index of the tab that holds pane `pane_id`.
    pub fn find_tab_index_for_pane(&self, pane_id: PaneId) -> (r: Option<usize>)
        ensures
            r is Some <==> self@.has_pane(pane_id),
            r matches Some(t) ==> t < self@.tabs.len() && self@.tabs[t as int].panes.contains(
                pane_id,
            ),
    {
        let mut t: usize = 0;
        while t < self.tabs.len()
            invariant
                t <= self.tabs@.len(),
                forall|k: int| 0 <= k < t ==> !(#[trigger] self@.tabs[k]).panes.contains(pane_id),
            decreases self.tabs@.len() - t,
        {
            proof {
                assert(self@.tabs[t as int] == self.tabs@[t as int]@);
            }
            if panes_contain(&self.tabs[t].panes, pane_id) {
                return Some(t);
            }
            t += 1;
        }
        None
    }
}

/// The repository name of a managed linked worktree, or `None` for any other workspace and for
/// an empty name.
pub fn managed_worktree_repo_name(ws: &Workspace) -> (r: Option<&str>)
    ensures
        match r {
            Some(name) => ws@.repo_name() == Some(name@),
            None => ws@.repo_name() is None,
        },
{
    match &ws.worktree_space {
        Some(space) => if space.is_linked_worktree && !space.label.as_str().is_empty() {
            Some(space.label.as_str())
        } else {
            None
        },
        None => None,
    }
}

/// The prefix of the branches that managed worktrees are made on.
pub const WORKTREE_BRANCH_PREFIX: &'static str = "worktree/";

/// A branch name without the prefix of managed worktrees.
pub open spec fn short_branch(branch: Seq<char>) -> Seq<char> {
    without_prefix(branch, WORKTREE_BRANCH_PREFIX@)
}

/// The label of a linked worktree that is listed under its parent: the given name, else the
/// branch without the prefix of managed worktrees, else the name it has anyway.
pub open spec fn child_label(
    raw: Seq<char>,
    branch: Option<Seq<char>>,
    has_custom_name: bool,
) -> Seq<char> {
    if has_custom_name {
        raw
    } else {
        match branch {
            Some(b) => short_branch(b),
            None => raw,
        }
    }
}

/// The label of a linked worktree that is listed under its parent.
pub fn grouped_child_display_label(raw: String, branch: &Option<String>, has_custom_name: bool)
    -> (r: String)
    ensures
        r@ == child_label(raw@, option_view(*branch), has_custom_name),
{
    if has_custom_name {
        return raw;
    }
    match branch {
        Some(b) => strip_text_prefix(b.as_str(), WORKTREE_BRANCH_PREFIX),
        None => raw,
    }
}

/// Whether the branch is already the displayed title: it equals it, or its short form does where
/// the title was derived from the branch.
pub open spec fn branch_is_title(
    branch: Seq<char>,
    existing_label: Seq<char>,
    derived: bool,
) -> bool {
    existing_label == branch || (derived && existing_label == short_branch(branch))
}

/// Tests whether the branch is already the displayed title. A title that was not derived from
/// the branch is only compared with the branch as it stands.
pub fn branch_matches_primary_label(
    branch: &str,
    existing_label: &str,
    primary_derived_from_branch: bool,
) -> (b: bool)
    ensures
        b == branch_is_title(branch@, existing_label@, primary_derived_from_branch),
{
    let label = existing_label.to_owned();
    if label == branch.to_owned() {
        return true;
    }
    primary_derived_from_branch && label == strip_text_prefix(branch, WORKTREE_BRANCH_PREFIX)
}

} // verus!
