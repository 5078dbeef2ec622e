//! The rows that the switcher lists.

use vstd::prelude::*;
use vstd::string::*;
use crate::matching::{match_rank, rank_lt, workspace_switcher_match_rank, Rank};
use crate::navigation::distinct_below;
use crate::paths::{abbreviated, basename, paths_equal, same_path};
use crate::provider::{CandidateModel, SearchProviderCandidate, SEARCH_RESULTS_LIMIT};
use crate::row_layout::LayoutModel;
use crate::rows::{
    AgentState, LabelModel, RowModel, SwitcherLabel, TargetModel, WorkspaceSwitcherRow,
    WorkspaceSwitcherTarget,
};
use crate::sorting::{stable_sort, stably_sorted, Ordered};
use crate::state::{AppModel, AppState, CanonicalModel, WorkspaceSwitcherMode};
use crate::terminal::{RegistryModel, TerminalRuntimeRegistry};
use crate::text::{trim, trim_text};
use crate::views::{lemma_views_empty, lemma_views_push, views};
use crate::workspace::{
    branch_is_title, branch_matches_primary_label, child_label, grouped_child_display_label,
    managed_worktree_repo_name,
};

verus! {

// ---------------------------------------------------------------------------
// Single rows
// ---------------------------------------------------------------------------

/// `s` followed by `x`, where there is one.
pub open spec fn with_optional(s: Seq<Seq<char>>, x: Option<Seq<char>>) -> Seq<Seq<char>> {
    match x {
        Some(t) => s.push(t),
        None => s,
    }
}

/// A text, unless it is empty.
pub open spec fn unless_empty(t: Seq<char>) -> Option<Seq<char>> {
    if t.len() == 0 {
        None
    } else {
        Some(t)
    }
}

impl AppModel {
    /// The label of workspace `i`: its name, or that of its branch where it is listed under its
    /// main worktree, with the repository name of a managed linked worktree.
    pub open spec fn label(self, runtimes: RegistryModel, i: int) -> LabelModel {
        let ws = self.workspaces[i];
        let raw = ws.display_name(runtimes);
        LabelModel {
            existing: if self.is_grouped_child(i) {
                child_label(raw, ws.branch, ws.custom_name is Some)
            } else {
                raw
            },
            repo: ws.repo_name(),
        }
    }

    /// The branch of workspace `i`, unless it is already the title `existing`.
    pub open spec fn branch_segment(self, i: int, existing: Seq<char>) -> Option<Seq<char>> {
        let ws = self.workspaces[i];
        match ws.branch {
            Some(branch) => if branch_is_title(
                branch,
                existing,
                self.is_grouped_child(i) && ws.custom_name is None,
            ) {
                None
            } else {
                Some(branch)
            },
            None => None,
        }
    }

    /// The row of workspace `i`. Its metadata is the repository name, the branch unless it is
    /// the title, and the agent activity, each where there is one.
    pub open spec fn workspace_row(self, i: int, label: LabelModel, expanded: bool) -> RowModel {
        let ws = self.workspaces[i];
        let empty = Seq::<Seq<char>>::empty();
        RowModel {
            target: TargetModel::Workspace { workspace_id: ws.id },
            ws_idx: i as usize,
            depth: 0,
            label,
            secondary: with_optional(
                with_optional(
                    with_optional(empty, label.repo),
                    self.branch_segment(i, label.existing),
                ),
                unless_empty(ws.activity),
            ),
            is_current: self.active == Some(i as usize),
            expanded,
            is_tab: false,
            is_directory: false,
            state: ws.state,
            seen: ws.seen,
        }
    }

    /// The row of tab `t` of workspace `i`.
    pub open spec fn tab_row(self, i: int, t: int) -> RowModel {
        let ws = self.workspaces[i];
        let tab = ws.tabs[t];
        RowModel {
            target: TargetModel::Tab { tab_id: tab.tab_id },
            ws_idx: i as usize,
            depth: 1,
            label: LabelModel::plain(tab.display_name),
            secondary: with_optional(Seq::<Seq<char>>::empty(), unless_empty(tab.activity)),
            is_current: self.active == Some(i as usize) && ws.active_tab == t,
            expanded: false,
            is_tab: true,
            is_directory: false,
            state: tab.state,
            seen: tab.seen,
        }
    }

    /// The rows of the tabs of workspace `i`.
    pub open spec fn tab_rows(self, i: int) -> Seq<RowModel> {
        if i < self.workspaces.len() {
            Seq::new(self.workspaces[i].tabs.len(), |t: int| self.tab_row(i, t))
        } else {
            Seq::<RowModel>::empty()
        }
    }

    /// The row of a directory that no workspace has open.
    pub open spec fn directory_row(self, candidate: CandidateModel) -> RowModel {
        RowModel {
            target: TargetModel::Directory {
                shown_path: candidate.shown_path,
                canonical_path: candidate.canonical_path,
            },
            ws_idx: usize::MAX,
            depth: 0,
            label: LabelModel::plain(basename(candidate.shown_path)),
            secondary: seq![abbreviated(candidate.shown_path, self.home)],
            is_current: false,
            expanded: false,
            is_tab: false,
            is_directory: true,
            state: AgentState::Idle,
            seen: false,
        }
    }
}

impl AppState {
    /// The row of a directory that no workspace has open.
    pub fn directory_row(&self, candidate: &SearchProviderCandidate) -> (r: WorkspaceSwitcherRow)
        ensures
            r@ == self@.directory_row(candidate@),
    {
        let mut secondary: Vec<String> = Vec::new();
        secondary.push(candidate.abbreviated_path(&self.home));
        let r = WorkspaceSwitcherRow {
            target: WorkspaceSwitcherTarget::Directory {
                shown_path: candidate.shown_path.clone(),
                canonical_path: candidate.canonical_path.clone(),
            },
            ws_idx: usize::MAX,
            depth: 0,
            label: SwitcherLabel::plain(candidate.basename()),
            secondary,
            is_current: false,
            expanded: false,
            is_tab: false,
            is_directory: true,
            state: AgentState::Idle,
            seen: false,
        };
        proof {
            assert(r@.secondary =~= self@.directory_row(candidate@).secondary);
        }
        r
    }

    /// The label of workspace `ws_idx`; empty where there is no such workspace.
    pub fn workspace_label(&self, ws_idx: usize, terminal_runtimes: &TerminalRuntimeRegistry) -> (r:
        SwitcherLabel)
        ensures
            ws_idx < self@.workspaces.len() ==> r@ == self@.label(
                terminal_runtimes@,
                ws_idx as int,
            ),
            ws_idx >= self@.workspaces.len() ==> r@ == LabelModel::plain(Seq::<char>::empty()),
    {
        if ws_idx >= self.workspaces.len() {
            return SwitcherLabel::plain(String::new());
        }
        let ws = &self.workspaces[ws_idx];
        proof {
            assert(self@.workspaces[ws_idx as int] == ws@);
        }
        let raw = ws.display_name_from(terminal_runtimes);
        let existing = if self.is_grouped_child_worktree(ws_idx) {
            grouped_child_display_label(raw, &ws.cached_git_branch, ws.custom_name.is_some())
        } else {
            raw
        };
        match managed_worktree_repo_name(ws) {
            Some(repo) => SwitcherLabel::composite(repo.to_owned(), existing),
            None => SwitcherLabel::plain(existing),
        }
    }

    /// The row of workspace `ws_idx`.
    pub fn workspace_switcher_workspace_row(
        &self,
        ws_idx: usize,
        label: SwitcherLabel,
        expanded: bool,
    ) -> (r: WorkspaceSwitcherRow)
        requires
            ws_idx < self@.workspaces.len(),
        ensures
            r@ == self@.workspace_row(ws_idx as int, label@, expanded),
    {
        broadcast use {lemma_views_push, lemma_views_empty};

        let ws = &self.workspaces[ws_idx];
        proof {
            assert(self@.workspaces[ws_idx as int] == ws@);
        }
        let mut secondary: Vec<String> = Vec::new();
        if let Some(repo) = &label.repo {
            secondary.push(repo.clone());
        }
        let derived = self.is_grouped_child_worktree(ws_idx) && ws.custom_name.is_none();
        if let Some(branch) = &ws.cached_git_branch {
            if !branch_matches_primary_label(branch.as_str(), label.existing.as_str(), derived) {
                secondary.push(branch.clone());
            }
        }
        if !ws.activity.as_str().is_empty() {
            secondary.push(ws.activity.clone());
        }
        let is_current = match self.active {
            Some(active) => active == ws_idx,
            None => false,
        };
        WorkspaceSwitcherRow {
            target: WorkspaceSwitcherTarget::Workspace { workspace_id: ws.id.clone() },
            ws_idx,
            depth: 0,
            label,
            secondary,
            is_current,
            expanded,
            is_tab: false,
            is_directory: false,
            state: ws.state,
            seen: ws.seen,
        }
    }

    /// The rows of the tabs of workspace `ws_idx`.
    pub fn workspace_switcher_tab_rows(&self, ws_idx: usize) -> (r: Vec<WorkspaceSwitcherRow>)
        ensures
            views(r@) == self@.tab_rows(ws_idx as int),
    {
        let mut rows: Vec<WorkspaceSwitcherRow> = Vec::new();
        if ws_idx >= self.workspaces.len() {
            proof {
                assert(views(rows@) =~= self@.tab_rows(ws_idx as int));
            }
            return rows;
        }
        let ws = &self.workspaces[ws_idx];
        let active = match self.active {
            Some(active) => active == ws_idx,
            None => false,
        };
        let mut t: usize = 0;
        while t < ws.tabs.len()
            invariant
                ws_idx < self.workspaces@.len(),
                *ws == self.workspaces@[ws_idx as int],
                active == (self.active == Some(ws_idx)),
                t <= ws.tabs@.len(),
                rows@.len() == t,
                forall|k: int|
                    0 <= k < t ==> (#[trigger] rows@[k])@ == self@.tab_row(ws_idx as int, k),
            decreases ws.tabs@.len() - t,
        {
            broadcast use {lemma_views_push, lemma_views_empty};

            let tab = &ws.tabs[t];
            proof {
                assert(self@.workspaces[ws_idx as int].tabs[t as int] == tab@);
            }
            let mut secondary: Vec<String> = Vec::new();
            if !tab.activity.as_str().is_empty() {
                secondary.push(tab.activity.clone());
            }
            let row = WorkspaceSwitcherRow {
                target: WorkspaceSwitcherTarget::Tab { tab_id: tab.tab_id.clone() },
                ws_idx,
                depth: 1,
                label: SwitcherLabel::plain(tab.display_name.clone()),
                secondary,
                is_current: active && ws.active_tab == t,
                expanded: false,
                is_tab: true,
                is_directory: false,
                state: tab.state,
                seen: tab.seen,
            };
            proof {
                assert(row@ =~= self@.tab_row(ws_idx as int, t as int));
            }
            rows.push(row);
            t += 1;
        }
        proof {
            assert(views(rows@) =~= self@.tab_rows(ws_idx as int));
        }
        rows
    }
}

// ---------------------------------------------------------------------------
// Rows without a search
// ---------------------------------------------------------------------------

impl AppModel {
    /// The rows of quick switching: the first `n` workspaces of `order`, each followed by its
    /// tabs where it is expanded.
    pub open spec fn quick_rows(
        self,
        runtimes: RegistryModel,
        order: Seq<usize>,
        n: nat,
    ) -> Seq<RowModel>
        decreases n,
    {
        if n == 0 {
            Seq::<RowModel>::empty()
        } else {
            let before = self.quick_rows(runtimes, order, (n - 1) as nat);
            let i = order[n - 1] as int;
            let expanded = self.switcher.expanded.contains(self.workspaces[i].id);
            let with_row = before.push(self.workspace_row(i, self.label(runtimes, i), expanded));
            if expanded {
                with_row + self.tab_rows(i)
            } else {
                with_row
            }
        }
    }

    /// The rows of the workspaces of `order`.
    pub open spec fn workspace_rows(self, runtimes: RegistryModel, order: Seq<usize>) -> Seq<
        RowModel,
    > {
        Seq::new(
            order.len(),
            |k: int| self.workspace_row(order[k] as int, self.label(runtimes, order[k] as int), false),
        )
    }
}

// ---------------------------------------------------------------------------
// Rows of a search
// ---------------------------------------------------------------------------

/// The better of two ranks.
pub open spec fn better(a: Option<Rank>, b: Option<Rank>) -> Option<Rank> {
    match (a, b) {
        (Some(x), Some(y)) => if rank_lt(y, x) {
            b
        } else {
            a
        },
        (None, _) => b,
        (_, None) => a,
    }
}

fn better_rank(a: Option<Rank>, b: Option<Rank>) -> (r: Option<Rank>)
    ensures
        r == better(a, b),
{
    match (a, b) {
        (Some(x), Some(y)) => if y.0 < x.0 || (y.0 == x.0 && y.1 < x.1) {
            b
        } else {
            a
        },
        (None, _) => b,
        (_, None) => a,
    }
}

/// A search result before it is shown.
#[derive(Debug, Clone, Copy, PartialEq, Eq)]
pub struct SearchEntry {
    pub rank: Rank,
    pub is_directory: bool,
    /// The score of a directory.
    pub score: u64,
    /// The recency of a workspace.
    pub order: usize,
    /// The index of the workspace or candidate.
    pub source: usize,
}

impl View for SearchEntry {
    type V = SearchEntry;

    open spec fn view(&self) -> SearchEntry {
        *self
    }
}

impl Ordered for SearchEntry {
    /// Better matches first; of two equal ones workspaces before directories, then the more
    /// recent workspace and the directory with the higher score.
    open spec fn precedes(a: SearchEntry, b: SearchEntry) -> bool {
        if a.rank != b.rank {
            rank_lt(a.rank, b.rank)
        } else if a.is_directory != b.is_directory {
            b.is_directory
        } else if a.is_directory {
            a.score > b.score
        } else {
            a.order < b.order
        }
    }

    fn comes_before(&self, other: &Self) -> (b: bool) {
        if self.rank.0 != other.rank.0 {
            self.rank.0 < other.rank.0
        } else if self.rank.1 != other.rank.1 {
            self.rank.1 < other.rank.1
        } else if self.is_directory != other.is_directory {
            other.is_directory
        } else if self.is_directory {
            self.score > other.score
        } else {
            self.order < other.order
        }
    }

    proof fn lemma_asymmetric(a: SearchEntry, b: SearchEntry) {
    }

    proof fn lemma_negatively_transitive(a: SearchEntry, b: SearchEntry, c: SearchEntry) {
    }
}

/// The canonical directory that `snapshot` gives for the workspace `id`; a later entry counts.
pub open spec fn snapshot_cwd(snapshot: Seq<CanonicalModel>, id: Seq<char>) -> Option<Seq<char>>
    decreases snapshot.len(),
{
    if snapshot.len() == 0 {
        None
    } else if snapshot.last().workspace_id == id {
        Some(snapshot.last().canonical_cwd)
    } else {
        snapshot_cwd(snapshot.drop_last(), id)
    }
}

/// The last candidate with the canonical path `canonical`.
pub open spec fn candidate_at(s: Seq<CandidateModel>, canonical: Seq<char>) -> Option<
    CandidateModel,
>
    decreases s.len(),
{
    if s.len() == 0 {
        None
    } else if same_path(s.last().canonical_path, canonical) {
        Some(s.last())
    } else {
        candidate_at(s.drop_last(), canonical)
    }
}

impl AppModel {
    /// The canonical directory of workspace `i`, where it is known.
    pub open spec fn canonical_cwd(self, i: usize) -> Option<Seq<char>> {
        if i < self.workspaces.len() {
            snapshot_cwd(self.switcher.snapshot, self.workspaces[i as int].id)
        } else {
            None
        }
    }

    /// Whether workspace `i` is in the directory `canonical`.
    pub open spec fn is_in(self, i: usize, canonical: Seq<char>) -> bool {
        match self.canonical_cwd(i) {
            Some(cwd) => same_path(cwd, canonical),
            None => false,
        }
    }

    /// The first workspace of `order`, from index `from` on, in the directory `canonical`.
    pub open spec fn open_workspace(
        self,
        order: Seq<usize>,
        canonical: Seq<char>,
        from: int,
    ) -> Option<usize>
        decreases order.len() - from,
    {
        if from < 0 || from >= order.len() {
            None
        } else if self.is_in(order[from], canonical) {
            Some(order[from])
        } else {
            self.open_workspace(order, canonical, from + 1)
        }
    }

    /// The rank that workspace `i` has through its directory: that of the candidate for the
    /// directory, which counts for the most recent workspace in it.
    pub open spec fn directory_rank(
        self,
        order: Seq<usize>,
        query: Seq<char>,
        i: usize,
    ) -> Option<Rank> {
        match self.canonical_cwd(i) {
            Some(cwd) => match candidate_at(self.switcher.candidates, cwd) {
                Some(candidate) => if self.open_workspace(order, cwd, 0) == Some(i) {
                    candidate.match_rank(query)
                } else {
                    None
                },
                None => None,
            },
            None => None,
        }
    }

    /// The rank of workspace `i`: the best of those of its label, its repository name, its
    /// branch, its composite label and its directory.
    pub open spec fn workspace_rank(
        self,
        runtimes: RegistryModel,
        order: Seq<usize>,
        query: Seq<char>,
        i: usize,
    ) -> Option<Rank> {
        let label = self.label(runtimes, i as int);
        let by_label = match_rank(query, label.existing);
        let by_repo = match label.repo {
            Some(repo) => match_rank(query, repo),
            None => None,
        };
        let by_branch = match self.workspaces[i as int].branch {
            Some(branch) => match_rank(query, branch),
            None => None,
        };
        let by_display = if label.display() != label.existing {
            match_rank(query, label.display())
        } else {
            None
        };
        better(
            better(better(better(by_label, by_repo), by_branch), by_display),
            self.directory_rank(order, query, i),
        )
    }

    /// The results among the first `n` workspaces of `order`.
    pub open spec fn workspace_entries(
        self,
        runtimes: RegistryModel,
        order: Seq<usize>,
        query: Seq<char>,
        n: nat,
    ) -> Seq<SearchEntry>
        decreases n,
    {
        if n == 0 {
            Seq::<SearchEntry>::empty()
        } else {
            let before = self.workspace_entries(runtimes, order, query, (n - 1) as nat);
            let i = order[n - 1];
            if i >= self.workspaces.len() {
                before
            } else {
                match self.workspace_rank(runtimes, order, query, i) {
                    Some(rank) => before.push(
                        SearchEntry {
                            rank,
                            is_directory: false,
                            score: 0,
                            order: (n - 1) as usize,
                            source: i,
                        },
                    ),
                    None => before,
                }
            }
        }
    }

    /// The results among the first `n` candidates: those that match and that no workspace of
    /// `order` has open.
    pub open spec fn directory_entries(
        self,
        order: Seq<usize>,
        query: Seq<char>,
        n: nat,
    ) -> Seq<SearchEntry>
        decreases n,
    {
        if n == 0 {
            Seq::<SearchEntry>::empty()
        } else {
            let before = self.directory_entries(order, query, (n - 1) as nat);
            let candidate = self.switcher.candidates[n - 1];
            if self.open_workspace(order, candidate.canonical_path, 0) is Some {
                before
            } else {
                match candidate.match_rank(query) {
                    Some(rank) => before.push(
                        SearchEntry {
                            rank,
                            is_directory: true,
                            score: candidate.score,
                            order: usize::MAX,
                            source: (n - 1) as usize,
                        },
                    ),
                    None => before,
                }
            }
        }
    }

    /// All results, the best first.
    pub open spec fn search_entries(
        self,
        runtimes: RegistryModel,
        query: Seq<char>,
        order: Seq<usize>,
    ) -> Seq<SearchEntry> {
        stably_sorted::<SearchEntry>(
            self.workspace_entries(runtimes, order, query, order.len()) + self.directory_entries(
                order,
                query,
                self.switcher.candidates.len(),
            ),
        )
    }

    /// The row of a result.
    pub open spec fn entry_row(self, runtimes: RegistryModel, e: SearchEntry) -> RowModel {
        if e.is_directory {
            self.directory_row(self.switcher.candidates[e.source as int])
        } else {
            self.workspace_row(e.source as int, self.label(runtimes, e.source as int), false)
        }
    }

    /// The rows of the first results, up to the limit.
    pub open spec fn search_rows(
        self,
        runtimes: RegistryModel,
        query: Seq<char>,
        order: Seq<usize>,
    ) -> Seq<RowModel> {
        let entries = self.search_entries(runtimes, query, order);
        let n = if entries.len() <= SEARCH_RESULTS_LIMIT {
            entries.len()
        } else {
            SEARCH_RESULTS_LIMIT as nat
        };
        Seq::new(n, |k: int| self.entry_row(runtimes, entries[k]))
    }

    /// The rows of the switcher.
    #[verifier::opaque]
    pub open spec fn switcher_rows(self, runtimes: RegistryModel) -> Seq<RowModel> {
        let order = self.mru_indices();
        let query = trim(self.switcher.query);
        if self.switcher.mode == WorkspaceSwitcherMode::QuickSwitch {
            self.quick_rows(runtimes, order, order.len())
        } else if query.len() == 0 {
            self.workspace_rows(runtimes, order)
        } else {
            self.search_rows(runtimes, query, order)
        }
    }
}

impl AppState {
    fn canonical_cwd(&self, ws_idx: usize) -> (r: Option<&String>)
        ensures
            match r {
                Some(cwd) => self@.canonical_cwd(ws_idx) == Some(cwd@),
                None => self@.canonical_cwd(ws_idx) is None,
            },
    {
        if ws_idx >= self.workspaces.len() {
            return None;
        }
        let id = &self.workspaces[ws_idx].id;
        let snapshot = &self.workspace_switcher.workspace_canonical_snapshot;
        let ghost all = self@.switcher.snapshot;
        let mut n: usize = snapshot.len();
        proof {
            assert(self@.workspaces[ws_idx as int].id == id@);
            assert(all.take(n as int) =~= all);
        }
        while n > 0
            invariant
                n <= snapshot@.len(),
                all == views(snapshot@),
                snapshot_cwd(all, id@) == snapshot_cwd(all.take(n as int), id@),
                self@.canonical_cwd(ws_idx) == snapshot_cwd(all, id@),
            decreases n,
        {
            proof {
                assert(all.take(n as int).drop_last() =~= all.take(n - 1));
                assert(all.take(n as int).last() == snapshot@[n - 1]@);
            }
            if snapshot[n - 1].workspace_id == *id {
                return Some(&snapshot[n - 1].canonical_cwd);
            }
            n -= 1;
        }
        None
    }

    fn candidate_at(&self, canonical: &str) -> (r: Option<&SearchProviderCandidate>)
        ensures
            match r {
                Some(c) => candidate_at(self@.switcher.candidates, canonical@) == Some(c@),
                None => candidate_at(self@.switcher.candidates, canonical@) is None,
            },
    {
        let candidates = &self.workspace_switcher.provider_candidates;
        let ghost all = self@.switcher.candidates;
        let mut n: usize = candidates.len();
        proof {
            assert(all.take(n as int) =~= all);
        }
        while n > 0
            invariant
                n <= candidates@.len(),
                all == views(candidates@),
                all == self@.switcher.candidates,
                candidate_at(all, canonical@) == candidate_at(all.take(n as int), canonical@),
            decreases n,
        {
            proof {
                assert(all.take(n as int).drop_last() =~= all.take(n - 1));
                assert(all.take(n as int).last() == candidates@[n - 1]@);
            }
            if paths_equal(candidates[n - 1].canonical_path.as_str(), canonical) {
                return Some(&candidates[n - 1]);
            }
            n -= 1;
        }
        None
    }

    fn open_workspace(&self, order: &Vec<usize>, canonical: &str) -> (r: Option<usize>)
        ensures
            r == self@.open_workspace(order@, canonical@, 0),
    {
        let mut k: usize = 0;
        while k < order.len()
            invariant
                k <= order@.len(),
                self@.open_workspace(order@, canonical@, 0) == self@.open_workspace(
                    order@,
                    canonical@,
                    k as int,
                ),
            decreases order@.len() - k,
        {
            if let Some(cwd) = self.canonical_cwd(order[k]) {
                if paths_equal(cwd.as_str(), canonical) {
                    return Some(order[k]);
                }
            }
            k += 1;
        }
        None
    }

    fn workspace_rank(
        &self,
        ws_idx: usize,
        label: &SwitcherLabel,
        query: &str,
        order: &Vec<usize>,
        Ghost(runtimes): Ghost<RegistryModel>,
    ) -> (r: Option<Rank>)
        requires
            ws_idx < self@.workspaces.len(),
            label@ == self@.label(runtimes, ws_idx as int),
        ensures
            r == self@.workspace_rank(runtimes, order@, query@, ws_idx),
    {
        let ws = &self.workspaces[ws_idx];
        proof {
            assert(self@.workspaces[ws_idx as int] == ws@);
        }
        let mut best = workspace_switcher_match_rank(query, label.existing.as_str());
        if let Some(repo) = &label.repo {
            best = better_rank(best, workspace_switcher_match_rank(query, repo.as_str()));
        }
        if let Some(branch) = &ws.cached_git_branch {
            best = better_rank(best, workspace_switcher_match_rank(query, branch.as_str()));
        }
        let display = label.display();
        if display != label.existing {
            best = better_rank(best, workspace_switcher_match_rank(query, display.as_str()));
        }
        if let Some(cwd) = self.canonical_cwd(ws_idx) {
            if let Some(candidate) = self.candidate_at(cwd.as_str()) {
                let open = match self.open_workspace(order, cwd.as_str()) {
                    Some(i) => i == ws_idx,
                    None => false,
                };
                if open {
                    best = better_rank(best, candidate.match_rank(query));
                }
            }
        }
        best
    }

    /// The rows of a search for `query`: workspaces, and directories that no workspace has open,
    /// ranked by match quality, then workspaces before directories, then by recency or score.
    pub fn search_rows_from(
        &self,
        terminal_runtimes: &TerminalRuntimeRegistry,
        query: &str,
        workspace_indices: &Vec<usize>,
    ) -> (r: Vec<WorkspaceSwitcherRow>)
        ensures
            views(r@) == self@.search_rows(terminal_runtimes@, query@, workspace_indices@),
    {
        let ghost s = self@;
        let ghost rt = terminal_runtimes@;
        let ghost order = workspace_indices@;
        let mut scored: Vec<SearchEntry> = Vec::new();
        let mut k: usize = 0;
        while k < workspace_indices.len()
            invariant
                k <= workspace_indices@.len(),
                s == self@,
                rt == terminal_runtimes@,
                order == workspace_indices@,
                scored@ == s.workspace_entries(rt, order, query@, k as nat),
                forall|j: int|
                    0 <= j < scored@.len() ==> !(#[trigger] scored@[j]).is_directory
                        && scored@[j].source < s.workspaces.len(),
            decreases workspace_indices@.len() - k,
        {
            let ws_idx: usize = workspace_indices[k];
            if ws_idx < self.workspaces.len() {
                let label = self.workspace_label(ws_idx, terminal_runtimes);
                let found = self.workspace_rank(
                    ws_idx,
                    &label,
                    query,
                    workspace_indices,
                    Ghost(rt),
                );
                if let Some(rank) = found {
                    scored.push(
                        SearchEntry {
                            rank,
                            is_directory: false,
                            score: 0,
                            order: k,
                            source: ws_idx,
                        },
                    );
                }
            }
            k += 1;
        }
        let ghost workspaces = scored@;
        let candidates = &self.workspace_switcher.provider_candidates;
        let mut n: usize = 0;
        proof {
            assert(workspaces + s.directory_entries(order, query@, 0) =~= workspaces);
        }
        while n < candidates.len()
            invariant
                n <= candidates@.len(),
                s == self@,
                order == workspace_indices@,
                s.switcher.candidates == views(candidates@),
                scored@ == workspaces + s.directory_entries(order, query@, n as nat),
                forall|j: int|
                    0 <= j < scored@.len() ==> (if (#[trigger] scored@[j]).is_directory {
                        scored@[j].source < candidates@.len()
                    } else {
                        scored@[j].source < s.workspaces.len()
                    }),
            decreases candidates@.len() - n,
        {
            let candidate = &candidates[n];
            let ghost so_far = s.directory_entries(order, query@, n as nat);
            proof {
                assert(s.switcher.candidates[n as int] == candidate@);
            }
            if self.open_workspace(
                workspace_indices,
                candidate.canonical_path.as_str(),
            ).is_none() {
                if let Some(rank) = candidate.match_rank(query) {
                    let entry = SearchEntry {
                        rank,
                        is_directory: true,
                        score: candidate.score,
                        order: usize::MAX,
                        source: n,
                    };
                    scored.push(entry);
                    proof {
                        assert((workspaces + so_far).push(entry) =~= workspaces + so_far.push(
                            entry,
                        ));
                    }
                }
            }
            n += 1;
        }
        let ghost unsorted = scored@;
        proof {
            assert(views(scored@) =~= scored@);
            crate::sorting::lemma_sorted_permutation::<SearchEntry>(unsorted);
        }
        let sorted = stable_sort(scored);
        proof {
            assert(views(sorted@) =~= sorted@);
            assert(sorted@ == s.search_entries(rt, query@, order));
            assert forall|j: int| 0 <= j < sorted@.len() implies unsorted.contains(
                #[trigger] sorted@[j],
            ) by {
                broadcast use vstd::seq_lib::group_to_multiset_ensures;

                assert(sorted@.to_multiset().count(sorted@[j]) > 0);
            }
        }
        let mut rows: Vec<WorkspaceSwitcherRow> = Vec::new();
        let mut j: usize = 0;
        while j < sorted.len() && j < SEARCH_RESULTS_LIMIT
            invariant
                j <= sorted@.len(),
                j <= SEARCH_RESULTS_LIMIT,
                s == self@,
                rt == terminal_runtimes@,
                candidates == self.workspace_switcher.provider_candidates,
                s.switcher.candidates == views(candidates@),
                forall|i: int|
                    0 <= i < unsorted.len() ==> (if (#[trigger] unsorted[i]).is_directory {
                        unsorted[i].source < candidates@.len()
                    } else {
                        unsorted[i].source < s.workspaces.len()
                    }),
                forall|i: int| 0 <= i < sorted@.len() ==> unsorted.contains(#[trigger] sorted@[i]),
                rows@.len() == j,
                forall|i: int|
                    0 <= i < j ==> (#[trigger] rows@[i])@ == s.entry_row(rt, sorted@[i]),
            decreases sorted@.len() - j,
        {
            let entry = sorted[j];
            proof {
                assert(unsorted.contains(sorted@[j as int]));
                let i = choose|i: int| 0 <= i < unsorted.len() && unsorted[i] == sorted@[j as int];
                assert(unsorted[i] == entry);
            }
            let row = if entry.is_directory {
                self.directory_row(&candidates[entry.source])
            } else {
                let label = self.workspace_label(entry.source, terminal_runtimes);
                self.workspace_switcher_workspace_row(entry.source, label, false)
            };
            rows.push(row);
            j += 1;
        }
        proof {
            assert(views(rows@) =~= s.search_rows(rt, query@, order));
        }
        rows
    }

    /// The rows of the workspaces of `indices`, each followed by its tabs where it is expanded.
    fn quick_rows_from(
        &self,
        terminal_runtimes: &TerminalRuntimeRegistry,
        indices: &Vec<usize>,
    ) -> (r: Vec<WorkspaceSwitcherRow>)
        requires
            distinct_below(indices@, self@.workspaces.len()),
        ensures
            views(r@) == self@.quick_rows(terminal_runtimes@, indices@, indices@.len()),
    {
        let ghost s = self@;
        let ghost rt = terminal_runtimes@;
        let ghost order = indices@;
        let mut rows: Vec<WorkspaceSwitcherRow> = Vec::new();
        let mut k: usize = 0;
        proof {
            assert(views(rows@) =~= Seq::<RowModel>::empty());
        }
        while k < indices.len()
            invariant
                k <= indices@.len(),
                s == self@,
                rt == terminal_runtimes@,
                order == indices@,
                distinct_below(order, s.workspaces.len()),
                views(rows@) == s.quick_rows(rt, order, k as nat),
            decreases indices@.len() - k,
        {
            broadcast use lemma_views_push;

            let ws_idx: usize = indices[k];
            proof {
                assert(order[k as int] < s.workspaces.len());
                assert(s.workspaces[ws_idx as int] == self.workspaces@[ws_idx as int]@);
            }
            let expanded = self.workspace_switcher.expanded_workspaces.contains(
                &self.workspaces[ws_idx].id,
            );
            let label = self.workspace_label(ws_idx, terminal_runtimes);
            rows.push(self.workspace_switcher_workspace_row(ws_idx, label, expanded));
            if expanded {
                let ghost with_row = rows@;
                let mut tabs = self.workspace_switcher_tab_rows(ws_idx);
                let ghost tab_rows = tabs@;
                rows.append(&mut tabs);
                proof {
                    assert(views(rows@) =~= views(with_row) + views(tab_rows));
                }
            }
            k += 1;
        }
        rows
    }

    /// The rows of the workspaces of `indices`.
    fn workspace_rows_from(
        &self,
        terminal_runtimes: &TerminalRuntimeRegistry,
        indices: &Vec<usize>,
    ) -> (r: Vec<WorkspaceSwitcherRow>)
        requires
            distinct_below(indices@, self@.workspaces.len()),
        ensures
            views(r@) == self@.workspace_rows(terminal_runtimes@, indices@),
    {
        let ghost all = self@.workspace_rows(terminal_runtimes@, indices@);
        let mut rows: Vec<WorkspaceSwitcherRow> = Vec::new();
        let mut k: usize = 0;
        proof {
            assert(views(rows@) =~= all.take(0));
        }
        while k < indices.len()
            invariant
                k <= indices@.len(),
                all == self@.workspace_rows(terminal_runtimes@, indices@),
                distinct_below(indices@, self@.workspaces.len()),
                views(rows@) == all.take(k as int),
            decreases indices@.len() - k,
        {
            broadcast use lemma_views_push;

            let ws_idx: usize = indices[k];
            proof {
                assert(indices@[k as int] < self@.workspaces.len());
                assert(all.take(k + 1) =~= all.take(k as int).push(all[k as int]));
            }
            let label = self.workspace_label(ws_idx, terminal_runtimes);
            rows.push(self.workspace_switcher_workspace_row(ws_idx, label, false));
            k += 1;
        }
        proof {
            assert(all.take(k as int) =~= all);
        }
        rows
    }

    /// The rows of the switcher: by recency with the tabs of expanded workspaces while quick
    /// switching, by recency alone in a search without a query, and ranked in any other search.
    pub fn workspace_switcher_rows_from(&self, terminal_runtimes: &TerminalRuntimeRegistry) -> (r:
        Vec<WorkspaceSwitcherRow>)
        ensures
            views(r@) == self@.switcher_rows(terminal_runtimes@),
    {
        proof {
            reveal(AppModel::switcher_rows);
        }
        let query = trim_text(self.workspace_switcher.query.as_str());
        let indices = self.workspace_mru_indices();
        if !self.workspace_switcher.mode.search_visible() {
            self.quick_rows_from(terminal_runtimes, &indices)
        } else if query.as_str().is_empty() {
            self.workspace_rows_from(terminal_runtimes, &indices)
        } else {
            self.search_rows_from(terminal_runtimes, query.as_str(), &indices)
        }
    }

    /// The rows of the switcher without any terminal.
    pub fn workspace_switcher_rows(&self) -> (r: Vec<WorkspaceSwitcherRow>)
        ensures
            views(r@) == self@.switcher_rows(RegistryModel::empty()),
    {
        self.workspace_switcher_rows_from(&TerminalRuntimeRegistry::new())
    }
}

// ---------------------------------------------------------------------------
// The number of rows
// ---------------------------------------------------------------------------

/// The sum of `f` over `order`.
spec fn sum_over(order: Seq<usize>, f: spec_fn(int) -> nat) -> nat
    decreases order.len(),
{
    if order.len() == 0 {
        0
    } else {
        sum_over(order.drop_last(), f) + f(order.last() as int)
    }
}

/// The sum of `f` over the indices below `n`.
spec fn sum_below(n: nat, f: spec_fn(int) -> nat) -> nat
    decreases n,
{
    if n == 0 {
        0
    } else {
        sum_below((n - 1) as nat, f) + f(n - 1)
    }
}

proof fn lemma_sum_remove(order: Seq<usize>, f: spec_fn(int) -> nat, p: int)
    requires
        0 <= p < order.len(),
    ensures
        sum_over(order, f) == sum_over(order.remove(p), f) + f(order[p] as int),
    decreases order.len(),
{
    if p == order.len() - 1 {
        assert(order.remove(p) =~= order.drop_last());
    } else {
        lemma_sum_remove(order.drop_last(), f, p);
        assert(order.remove(p).drop_last() =~= order.drop_last().remove(p));
        assert(order.remove(p).last() == order.last());
    }
}

proof fn lemma_sum_distinct(order: Seq<usize>, f: spec_fn(int) -> nat, count: nat)
    requires
        distinct_below(order, count),
    ensures
        sum_over(order, f) <= sum_below(count, f),
    decreases count,
{
    if order.len() > 0 && count > 0 {
        if exists|p: int| 0 <= p < order.len() && order[p] == count - 1 {
            let p = choose|p: int| 0 <= p < order.len() && order[p] == count - 1;
            let rest = order.remove(p);
            assert forall|i: int| 0 <= i < rest.len() implies (#[trigger] rest[i]) < count - 1 by {
                let q = if i < p { i } else { i + 1 };
                assert(rest[i] == order[q]);
                assert(order[q] < count);
            }
            lemma_sum_distinct(rest, f, (count - 1) as nat);
            lemma_sum_remove(order, f, p);
        } else {
            assert forall|i: int| 0 <= i < order.len() implies (#[trigger] order[i]) < count - 1 by {
                assert(order[i] < count);
            }
            lemma_sum_distinct(order, f, (count - 1) as nat);
        }
    } else if order.len() > 0 {
        assert(order[0] < count);
    }
}

/// The number of rows that workspace `i` can take.
spec fn rows_of(s: AppModel) -> spec_fn(int) -> nat {
    |i: int| 1 + s.workspaces[i].tabs.len()
}

proof fn lemma_sum_items(s: AppModel, n: nat)
    requires
        n <= s.workspaces.len(),
    ensures
        sum_below(n, rows_of(s)) <= crate::navigation::items_in(s.workspaces, n),
    decreases n,
{
    if n > 0 {
        lemma_sum_items(s, (n - 1) as nat);
    }
}

proof fn lemma_quick_rows_len(s: AppModel, runtimes: RegistryModel, order: Seq<usize>, n: nat)
    requires
        n <= order.len(),
        distinct_below(order, s.workspaces.len()),
    ensures
        s.quick_rows(runtimes, order, n).len() <= sum_over(order.take(n as int), rows_of(s)),
    decreases n,
{
    if n > 0 {
        lemma_quick_rows_len(s, runtimes, order, (n - 1) as nat);
        assert(order.take(n as int).drop_last() =~= order.take(n - 1));
        assert(order[n - 1] < s.workspaces.len());
    }
}

proof fn lemma_entries_len(
    s: AppModel,
    runtimes: RegistryModel,
    order: Seq<usize>,
    query: Seq<char>,
    n: nat,
)
    ensures
        s.workspace_entries(runtimes, order, query, n).len() <= n,
        s.directory_entries(order, query, n).len() <= n,
    decreases n,
{
    if n > 0 {
        lemma_entries_len(s, runtimes, order, query, (n - 1) as nat);
    }
}

proof fn lemma_sum_at_least(order: Seq<usize>, s: AppModel)
    ensures
        order.len() <= sum_over(order, rows_of(s)),
    decreases order.len(),
{
    if order.len() > 0 {
        lemma_sum_at_least(order.drop_last(), s);
    }
}

/// The switcher never lists more rows than there are workspaces, tabs and candidates, and in a
/// search with a query never more than the limit.
pub proof fn lemma_switcher_rows_len(s: AppModel, runtimes: RegistryModel)
    requires
        s.workspaces.len() <= usize::MAX,
    ensures
        s.switcher_rows(runtimes).len() <= s.size(),
        s.switcher.mode == WorkspaceSwitcherMode::Search && trim(s.switcher.query).len() > 0
            ==> s.switcher_rows(runtimes).len() <= SEARCH_RESULTS_LIMIT,
{
    reveal(AppModel::switcher_rows);
    let order = s.mru_indices();
    let query = trim(s.switcher.query);
    crate::navigation::lemma_mru_indices(s);
    lemma_sum_distinct(order, rows_of(s), s.workspaces.len());
    lemma_sum_items(s, s.workspaces.len());
    lemma_sum_at_least(order, s);
    assert(order.take(order.len() as int) =~= order);
    lemma_quick_rows_len(s, runtimes, order, order.len());
    lemma_entries_len(s, runtimes, order, query, order.len());
    lemma_entries_len(s, runtimes, order, query, s.switcher.candidates.len());
    crate::sorting::lemma_sorted_permutation::<SearchEntry>(
        s.workspace_entries(runtimes, order, query, order.len()) + s.directory_entries(
            order,
            query,
            s.switcher.candidates.len(),
        ),
    );
}

// ---------------------------------------------------------------------------
// Layout
// ---------------------------------------------------------------------------

impl AppModel {
    /// The body of the switcher list.
    #[verifier::opaque]
    pub open spec fn switcher_body(self) -> crate::geometry::Rect {
        crate::geometry::switcher_layout(self.view, self.switcher.mode.searches()).body
    }

    /// The layout of the rows in the body.
    pub open spec fn row_layout(self, runtimes: RegistryModel) -> LayoutModel {
        LayoutModel::of(self.switcher_rows(runtimes), self.switcher_body().height as nat)
    }
}

} // verus!
