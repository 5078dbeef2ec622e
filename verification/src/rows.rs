//! The rows of the workspace switcher.

use vstd::prelude::*;
use vstd::string::*;
use crate::paths::{paths_equal, same_path};
use crate::views::{option_view, views};

verus! {

/// What an agent in a workspace or tab is doing.
#[derive(Debug, Clone, Copy, PartialEq, Eq, Structural)]
pub enum AgentState {
    Idle,
    Working,
    Blocked,
    Unknown,
}

/// The separator between the repository name and the existing label of a composite label.
pub const COMPOSITE_SEPARATOR: &'static str = " / ";

/// The label of a switcher row: the existing workspace label and, for a managed linked worktree,
/// its repository name.
#[derive(Debug, PartialEq, Eq)]
pub struct SwitcherLabel {
    pub existing: String,
    pub repo: Option<String>,
}

/// The view of a [`SwitcherLabel`].
pub struct LabelModel {
    pub existing: Seq<char>,
    pub repo: Option<Seq<char>>,
}

impl View for SwitcherLabel {
    type V = LabelModel;

    open spec fn view(&self) -> LabelModel {
        LabelModel { existing: self.existing@, repo: option_view(self.repo) }
    }
}

/// The composite display text of a repository name and an existing label.
pub open spec fn composed(repo: Seq<char>, existing: Seq<char>) -> Seq<char> {
    repo + COMPOSITE_SEPARATOR@ + existing
}

impl LabelModel {
    /// The text that shows the label in full.
    pub open spec fn display(self) -> Seq<char> {
        match self.repo {
            Some(repo) => composed(repo, self.existing),
            None => self.existing,
        }
    }

    /// A label without a repository name.
    pub open spec fn plain(existing: Seq<char>) -> LabelModel {
        LabelModel { existing, repo: None }
    }
}

impl SwitcherLabel {
    /// Composes the display text from its parts.
    pub fn compose(repo: &str, existing: &str) -> (r: String)
        ensures
            r@ == composed(repo@, existing@),
    {
        let mut r = repo.to_owned();
        r.append(COMPOSITE_SEPARATOR);
        r.append(existing);
        r
    }

    /// A label without a repository name.
    pub fn plain(existing: String) -> (r: SwitcherLabel)
        ensures
            r@ == LabelModel::plain(existing@),
    {
        SwitcherLabel { existing, repo: None }
    }

    /// A label with a repository name.
    pub fn composite(repo: String, existing: String) -> (r: SwitcherLabel)
        ensures
            r@ == (LabelModel { existing: existing@, repo: Some(repo@) }),
    {
        SwitcherLabel { existing, repo: Some(repo) }
    }

    /// The text that shows the label in full.
    pub fn display(&self) -> (r: String)
        ensures
            r@ == self@.display(),
    {
        match &self.repo {
            Some(repo) => SwitcherLabel::compose(repo.as_str(), self.existing.as_str()),
            None => self.existing.clone(),
        }
    }

    /// The repository name, where there is one, and the existing label.
    pub fn parts(&self) -> (r: (Option<&str>, &str))
        ensures
            r.1@ == self@.existing,
            match r.0 {
                Some(repo) => self@.repo == Some(repo@),
                None => self@.repo is None,
            },
    {
        match &self.repo {
            Some(repo) => (Some(repo.as_str()), self.existing.as_str()),
            None => (None, self.existing.as_str()),
        }
    }
}

/// What a switcher row stands for.
#[derive(Debug)]
pub enum WorkspaceSwitcherTarget {
    Workspace { workspace_id: String },
    Tab { tab_id: String },
    Directory { shown_path: String, canonical_path: String },
}

/// The view of a [`WorkspaceSwitcherTarget`].
pub enum TargetModel {
    Workspace { workspace_id: Seq<char> },
    Tab { tab_id: Seq<char> },
    Directory { shown_path: Seq<char>, canonical_path: Seq<char> },
}

impl View for WorkspaceSwitcherTarget {
    type V = TargetModel;

    open spec fn view(&self) -> TargetModel {
        match *self {
            WorkspaceSwitcherTarget::Workspace { workspace_id } => TargetModel::Workspace {
                workspace_id: workspace_id@,
            },
            WorkspaceSwitcherTarget::Tab { tab_id } => TargetModel::Tab { tab_id: tab_id@ },
            WorkspaceSwitcherTarget::Directory { shown_path, canonical_path } =>
                TargetModel::Directory {
                shown_path: shown_path@,
                canonical_path: canonical_path@,
            },
        }
    }
}

/// Whether two targets are the same: the same workspace or tab id, or the same paths.
pub open spec fn same_target(a: TargetModel, b: TargetModel) -> bool {
    match (a, b) {
        (
            TargetModel::Workspace { workspace_id: x },
            TargetModel::Workspace { workspace_id: y },
        ) => x == y,
        (TargetModel::Tab { tab_id: x }, TargetModel::Tab { tab_id: y }) => x == y,
        (
            TargetModel::Directory { shown_path: xs, canonical_path: xc },
            TargetModel::Directory { shown_path: ys, canonical_path: yc },
        ) => same_path(xs, ys) && same_path(xc, yc),
        _ => false,
    }
}

impl WorkspaceSwitcherTarget {
    /// Tests whether two targets are the same.
    pub fn same_as(&self, other: &WorkspaceSwitcherTarget) -> (b: bool)
        ensures
            b == same_target(self@, other@),
    {
        match (self, other) {
            (
                WorkspaceSwitcherTarget::Workspace { workspace_id: x },
                WorkspaceSwitcherTarget::Workspace { workspace_id: y },
            ) => *x == *y,
            (
                WorkspaceSwitcherTarget::Tab { tab_id: x },
                WorkspaceSwitcherTarget::Tab { tab_id: y },
            ) => *x == *y,
            (
                WorkspaceSwitcherTarget::Directory { shown_path: xs, canonical_path: xc },
                WorkspaceSwitcherTarget::Directory { shown_path: ys, canonical_path: yc },
            ) => paths_equal(xs.as_str(), ys.as_str()) && paths_equal(xc.as_str(), yc.as_str()),
            _ => false,
        }
    }
}

impl Clone for WorkspaceSwitcherTarget {
    fn clone(&self) -> (r: Self)
        ensures
            r@ == self@,
    {
        match self {
            WorkspaceSwitcherTarget::Workspace { workspace_id } =>
                WorkspaceSwitcherTarget::Workspace { workspace_id: workspace_id.clone() },
            WorkspaceSwitcherTarget::Tab { tab_id } => WorkspaceSwitcherTarget::Tab {
                tab_id: tab_id.clone(),
            },
            WorkspaceSwitcherTarget::Directory { shown_path, canonical_path } =>
                WorkspaceSwitcherTarget::Directory {
                shown_path: shown_path.clone(),
                canonical_path: canonical_path.clone(),
            },
        }
    }
}

impl PartialEq for WorkspaceSwitcherTarget {
    fn eq(&self, other: &Self) -> (b: bool) {
        self.same_as(other)
    }
}

impl vstd::std_specs::cmp::PartialEqSpecImpl for WorkspaceSwitcherTarget {
    open spec fn obeys_eq_spec() -> bool {
        true
    }

    open spec fn eq_spec(&self, other: &Self) -> bool {
        same_target(self@, other@)
    }
}

/// One row of the switcher list.
#[derive(Debug, PartialEq)]
pub struct WorkspaceSwitcherRow {
    pub target: WorkspaceSwitcherTarget,
    pub ws_idx: usize,
    pub depth: u8,
    pub label: SwitcherLabel,
    /// Secondary metadata in display order. A row without any takes one line, unless it shows
    /// a directory.
    pub secondary: Vec<String>,
    pub is_current: bool,
    pub expanded: bool,
    pub is_tab: bool,
    pub is_directory: bool,
    pub state: AgentState,
    pub seen: bool,
}

/// The view of a [`WorkspaceSwitcherRow`].
pub struct RowModel {
    pub target: TargetModel,
    pub ws_idx: usize,
    pub depth: u8,
    pub label: LabelModel,
    pub secondary: Seq<Seq<char>>,
    pub is_current: bool,
    pub expanded: bool,
    pub is_tab: bool,
    pub is_directory: bool,
    pub state: AgentState,
    pub seen: bool,
}

impl View for WorkspaceSwitcherRow {
    type V = RowModel;

    open spec fn view(&self) -> RowModel {
        RowModel {
            target: self.target@,
            ws_idx: self.ws_idx,
            depth: self.depth,
            label: self.label@,
            secondary: views(self.secondary@),
            is_current: self.is_current,
            expanded: self.expanded,
            is_tab: self.is_tab,
            is_directory: self.is_directory,
            state: self.state,
            seen: self.seen,
        }
    }
}

} // verus!
