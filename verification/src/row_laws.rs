//! What the rows of the switcher show and in which order they stand, in terms of the workspaces
//! and directories.

use vstd::prelude::*;
use crate::matching::{match_rank, Rank};
use crate::navigation::is_parent_of;
use crate::paths::{abbreviated, basename, same_path};
use crate::provider::{CandidateModel, PreviewStateModel, SearchProviderStatus};
use crate::rows::TargetModel;
use crate::sorting::{lemma_sorted_permutation, Ordered};
use crate::state::{AppModel, PreviewModel, SwitcherModel, WorkspaceSwitcherMode};
use crate::switcher_laws::lemma_search_order;
use crate::switcher_rows::{better, snapshot_cwd, SearchEntry};
use crate::switcher_session::AppEventModel;
use crate::terminal::{runtime_index, runtime_of, RegistryModel};
use crate::text::trim;
use crate::text_laws::lemma_prefix_removed;
use crate::workspace::short_branch;

verus! {

// ---------------------------------------------------------------------------
// Order of results
// ---------------------------------------------------------------------------

/// Whether rank `a` is at least as good as rank `b`: of better quality, or of the same with the
/// match no further to the back.
pub open spec fn as_good(a: Rank, b: Rank) -> bool {
    a.0 < b.0 || (a.0 == b.0 && a.1 <= b.1)
}

/// Of two results of a search the first is as good a match. Where they match alike, a workspace
/// stands before a directory, the more recent workspace before the other, and the directory with
/// the higher score before the other.
pub proof fn lemma_results_in_order(
    s: AppModel,
    runtimes: RegistryModel,
    query: Seq<char>,
    order: Seq<usize>,
    i: int,
    j: int,
)
    requires
        0 <= i < j < s.search_entries(runtimes, query, order).len(),
    ensures
        ({
            let a = s.search_entries(runtimes, query, order)[i];
            let b = s.search_entries(runtimes, query, order)[j];
            &&& as_good(a.rank, b.rank)
            &&& a.rank == b.rank && a.is_directory ==> b.is_directory && a.score >= b.score
            &&& a.rank == b.rank && !b.is_directory ==> !a.is_directory && a.order <= b.order
        }),
{
    lemma_search_order(s, runtimes, query, order);
    let entries = s.search_entries(runtimes, query, order);
    assert(!SearchEntry::precedes(entries[j], entries[i]));
}

proof fn lemma_entry_places(
    s: AppModel,
    runtimes: RegistryModel,
    query: Seq<char>,
    order: Seq<usize>,
    n: nat,
)
    requires
        n <= order.len() <= usize::MAX,
    ensures
        forall|k: int|
            0 <= k < s.workspace_entries(runtimes, order, query, n).len() ==> {
                let e = #[trigger] s.workspace_entries(runtimes, order, query, n)[k];
                &&& e.order < n
                &&& order[e.order as int] == e.source
                &&& !e.is_directory
            },
    decreases n,
{
    if n > 0 {
        lemma_entry_places(s, runtimes, query, order, (n - 1) as nat);
        let before = s.workspace_entries(runtimes, order, query, (n - 1) as nat);
        let after = s.workspace_entries(runtimes, order, query, n);
        assert forall|k: int| 0 <= k < after.len() implies {
            let e = #[trigger] after[k];
            &&& e.order < n
            &&& order[e.order as int] == e.source
            &&& !e.is_directory
        } by {
            if k < before.len() {
                assert(after[k] == before[k]);
            }
        }
    }
}

proof fn lemma_entry_scores(s: AppModel, query: Seq<char>, order: Seq<usize>, n: nat)
    requires
        n <= s.switcher.candidates.len() <= usize::MAX,
    ensures
        forall|k: int|
            0 <= k < s.directory_entries(order, query, n).len() ==> {
                let e = #[trigger] s.directory_entries(order, query, n)[k];
                &&& e.source < n
                &&& e.score == s.switcher.candidates[e.source as int].score
                &&& e.is_directory
            },
    decreases n,
{
    if n > 0 {
        lemma_entry_scores(s, query, order, (n - 1) as nat);
        let before = s.directory_entries(order, query, (n - 1) as nat);
        let after = s.directory_entries(order, query, n);
        assert forall|k: int| 0 <= k < after.len() implies {
            let e = #[trigger] after[k];
            &&& e.source < n
            &&& e.score == s.switcher.candidates[e.source as int].score
            &&& e.is_directory
        } by {
            if k < before.len() {
                assert(after[k] == before[k]);
            }
        }
    }
}

/// A result for a workspace has the place of the workspace in the recency order, and one for a
/// directory has the score of the directory.
pub proof fn lemma_result_keys(
    s: AppModel,
    runtimes: RegistryModel,
    query: Seq<char>,
    order: Seq<usize>,
    k: int,
)
    requires
        s.switcher.candidates.len() <= usize::MAX,
        order.len() <= usize::MAX,
        0 <= k < s.search_entries(runtimes, query, order).len(),
    ensures
        ({
            let e = s.search_entries(runtimes, query, order)[k];
            &&& !e.is_directory ==> e.order < order.len() && order[e.order as int] == e.source
            &&& e.is_directory ==> e.source < s.switcher.candidates.len() && e.score
                == s.switcher.candidates[e.source as int].score
        }),
{
    broadcast use vstd::seq_lib::group_to_multiset_ensures;

    let a = s.workspace_entries(runtimes, order, query, order.len());
    let b = s.directory_entries(order, query, s.switcher.candidates.len());
    let entries = s.search_entries(runtimes, query, order);
    lemma_sorted_permutation::<SearchEntry>(a + b);
    lemma_entry_places(s, runtimes, query, order, order.len());
    lemma_entry_scores(s, query, order, s.switcher.candidates.len());
    let e = entries[k];
    assert(entries.contains(e));
    assert(entries.to_multiset().count(e) > 0);
    assert((a + b).contains(e));
    let j = choose|j: int| 0 <= j < (a + b).len() && (a + b)[j] == e;
    if j < a.len() {
        assert(a[j] == e);
    } else {
        assert(b[j - a.len()] == e);
    }
}

/// Each row of a search shows its result: the workspace with its id, or the directory with its
/// paths. There are as many rows as results, up to a hundred.
pub proof fn lemma_search_rows(
    s: AppModel,
    runtimes: RegistryModel,
    query: Seq<char>,
    order: Seq<usize>,
    k: int,
)
    requires
        0 <= k < s.search_rows(runtimes, query, order).len(),
    ensures
        ({
            let rows = s.search_rows(runtimes, query, order);
            let entries = s.search_entries(runtimes, query, order);
            let e = entries[k];
            &&& rows.len() <= entries.len()
            &&& rows.len() == entries.len() || rows.len() == 100
            &&& rows[k].is_directory == e.is_directory
            &&& !rows[k].is_tab
            &&& !e.is_directory ==> rows[k].ws_idx == e.source && rows[k].target == (
            TargetModel::Workspace { workspace_id: s.workspaces[e.source as int].id })
            &&& e.is_directory ==> rows[k].target == (TargetModel::Directory {
                shown_path: s.switcher.candidates[e.source as int].shown_path,
                canonical_path: s.switcher.candidates[e.source as int].canonical_path,
            })
        }),
{
}

// ---------------------------------------------------------------------------
// Ranks
// ---------------------------------------------------------------------------

/// Of two ranks the one that is at least as good is the better one, and any is better than none.
pub proof fn lemma_better(a: Option<Rank>, b: Option<Rank>)
    ensures
        better(a, b) == a || better(a, b) == b,
        better(a, b) is None <==> a is None && b is None,
        a is Some ==> better(a, b) is Some && as_good(better(a, b)->0, a->0),
        b is Some ==> better(a, b) is Some && as_good(better(a, b)->0, b->0),
{
}

/// Whether `rank` is at least as good as what `query` gives on `text`.
pub open spec fn covers_text(rank: Option<Rank>, query: Seq<char>, text: Seq<char>) -> bool {
    match_rank(query, text) is Some ==> rank is Some && as_good(rank->0, match_rank(query, text)->0)
}

/// A workspace is found by its label, its repository name, its branch, the label with the
/// repository name in front, and its directory, and it has the best of their ranks. It is found by
/// nothing else.
pub proof fn lemma_workspace_rank(
    s: AppModel,
    runtimes: RegistryModel,
    order: Seq<usize>,
    query: Seq<char>,
    i: usize,
)
    ensures
        ({
            let rank = s.workspace_rank(runtimes, order, query, i);
            let label = s.label(runtimes, i as int);
            let branch = s.workspaces[i as int].branch;
            let directory = s.directory_rank(order, query, i);
            &&& covers_text(rank, query, label.existing)
            &&& label.repo is Some ==> covers_text(rank, query, label.repo->0)
            &&& branch is Some ==> covers_text(rank, query, branch->0)
            &&& covers_text(rank, query, label.display())
            &&& directory is Some ==> rank is Some && as_good(rank->0, directory->0)
            &&& rank is Some ==> rank == match_rank(query, label.existing) || (label.repo is Some
                && rank == match_rank(query, label.repo->0)) || (branch is Some && rank
                == match_rank(query, branch->0)) || rank == match_rank(query, label.display())
                || rank == directory
        }),
{
}

/// A directory is found by its name, and by its whole path only where its name does not match.
pub proof fn lemma_candidate_rank(c: CandidateModel, query: Seq<char>)
    ensures
        match_rank(query, basename(c.shown_path)) is Some ==> c.match_rank(query) == match_rank(
            query,
            basename(c.shown_path),
        ),
        match_rank(query, basename(c.shown_path)) is None ==> c.match_rank(query) == match_rank(
            query,
            c.shown_path,
        ),
{
}

proof fn lemma_snapshot(s: AppModel, n: int, k: int)
    requires
        0 <= k < n <= s.switcher.snapshot.len(),
        forall|j: int|
            k < j < n ==> (#[trigger] s.switcher.snapshot[j]).workspace_id
                != s.switcher.snapshot[k].workspace_id,
    ensures
        snapshot_cwd(s.switcher.snapshot.take(n), s.switcher.snapshot[k].workspace_id) == Some(
            s.switcher.snapshot[k].canonical_cwd,
        ),
    decreases n,
{
    let all = s.switcher.snapshot;
    assert(all.take(n).drop_last() =~= all.take(n - 1));
    assert(all.take(n).last() == all[n - 1]);
    if k < n - 1 {
        assert(all[n - 1].workspace_id != all[k].workspace_id);
        lemma_snapshot(s, n - 1, k);
    }
}

/// The directory of a workspace is the one that was recorded for its id last.
pub proof fn lemma_workspace_directory(s: AppModel, i: usize, k: int)
    requires
        i < s.workspaces.len(),
        0 <= k < s.switcher.snapshot.len(),
        s.switcher.snapshot[k].workspace_id == s.workspaces[i as int].id,
        forall|j: int|
            k < j < s.switcher.snapshot.len() ==> (#[trigger] s.switcher.snapshot[j]).workspace_id
                != s.workspaces[i as int].id,
    ensures
        s.canonical_cwd(i) == Some(s.switcher.snapshot[k].canonical_cwd),
{
    lemma_snapshot(s, s.switcher.snapshot.len() as int, k);
    assert(s.switcher.snapshot.take(s.switcher.snapshot.len() as int) =~= s.switcher.snapshot);
}

/// Whether the directory of workspace `i` is known to be `canonical`.
pub open spec fn stays_in(s: AppModel, i: usize, canonical: Seq<char>) -> bool {
    s.canonical_cwd(i) is Some && same_path(s.canonical_cwd(i)->0, canonical)
}

/// The workspace that has a directory open is the most recent one in it, and there is none only
/// where no workspace is in it.
pub proof fn lemma_open_workspace(
    s: AppModel,
    order: Seq<usize>,
    canonical: Seq<char>,
    from: int,
    k: int,
)
    requires
        0 <= from <= k <= order.len(),
        k < order.len() ==> stays_in(s, order[k], canonical),
        forall|j: int| from <= j < k ==> !stays_in(s, #[trigger] order[j], canonical),
    ensures
        s.open_workspace(order, canonical, from) == if k < order.len() {
            Some(order[k])
        } else {
            None
        },
    decreases k - from,
{
    if from < order.len() {
        assert(s.is_in(order[from], canonical) == stays_in(s, order[from], canonical));
    }
    if from < k {
        lemma_open_workspace(s, order, canonical, from + 1, k);
    }
}

// ---------------------------------------------------------------------------
// Labels and metadata
// ---------------------------------------------------------------------------

/// Whether workspace `i` is a linked worktree and the main worktree of its repository is open too.
pub open spec fn has_parent(s: AppModel, i: int) -> bool {
    let space = s.workspaces[i].space;
    space is Some && space->0.is_linked_worktree && exists|p: int|
        0 <= p < s.workspaces.len() && #[trigger] s.workspaces[p].space is Some
            && !s.workspaces[p].space->0.is_linked_worktree && s.workspaces[p].space->0.key
            == space->0.key
}

proof fn lemma_has_parent(s: AppModel, i: int)
    ensures
        s.is_grouped_child(i) == has_parent(s, i),
{
    if has_parent(s, i) {
        let space = s.workspaces[i].space->0;
        let p = choose|p: int|
            0 <= p < s.workspaces.len() && #[trigger] s.workspaces[p].space is Some
                && !s.workspaces[p].space->0.is_linked_worktree && s.workspaces[p].space->0.key
                == space.key;
        assert(is_parent_of(s.workspaces[p], space.key));
    }
    if s.is_grouped_child(i) {
        let space = s.workspaces[i].space->0;
        let p = choose|p: int|
            0 <= p < s.workspaces.len() && is_parent_of(#[trigger] s.workspaces[p], space.key);
        assert(s.workspaces[p].space is Some);
    }
}

proof fn lemma_runtime_index(runtimes: RegistryModel, pane_id: u64, k: int, from: int)
    requires
        0 <= from <= k <= runtimes.len(),
        k < runtimes.len() ==> runtimes[k].pane_id == pane_id,
        forall|j: int| from <= j < k ==> (#[trigger] runtimes[j]).pane_id != pane_id,
    ensures
        runtime_index(runtimes, pane_id, from) == if k < runtimes.len() {
            Some(k)
        } else {
            None
        },
    decreases k - from,
{
    if from < k {
        lemma_runtime_index(runtimes, pane_id, k, from + 1);
    }
}

/// The terminal of a pane is the first one that is registered for it, and there is none where no
/// one is.
pub proof fn lemma_runtime_of(runtimes: RegistryModel, pane_id: u64, k: int)
    requires
        0 <= k <= runtimes.len(),
        k < runtimes.len() ==> runtimes[k].pane_id == pane_id,
        forall|j: int| 0 <= j < k ==> (#[trigger] runtimes[j]).pane_id != pane_id,
    ensures
        k < runtimes.len() ==> runtime_of(runtimes, pane_id) == Some(runtimes[k]),
        k == runtimes.len() ==> runtime_of(runtimes, pane_id) is None,
{
    lemma_runtime_index(runtimes, pane_id, k, 0);
}

/// A workspace is called by the name that was given to it; else, listed under its main worktree,
/// by its branch; else by what its first terminal calls it; else by its automatic name.
pub proof fn lemma_label(s: AppModel, runtimes: RegistryModel, i: int)
    ensures
        ({
            let ws = s.workspaces[i];
            let text = s.label(runtimes, i).existing;
            let child = has_parent(s, i) && ws.branch is Some;
            let runtime = runtime_of(runtimes, ws.root_pane);
            &&& ws.custom_name is Some ==> text == ws.custom_name->0
            &&& ws.custom_name is None && child ==> text == short_branch(ws.branch->0)
            &&& ws.custom_name is None && !child && runtime is Some && runtime->0.live_label is Some
                ==> text == runtime->0.live_label->0
            &&& ws.custom_name is None && !child && (runtime is None || runtime->0.live_label
                is None) ==> text == ws.auto_label
        }),
{
    lemma_has_parent(s, i);
}

/// The branch of a managed worktree is shown without the prefix that such branches have; any other
/// branch is shown as it is.
pub proof fn lemma_short_branch(rest: Seq<char>, branch: Seq<char>)
    ensures
        short_branch("worktree/"@ + rest) == rest,
        branch.len() < 9 ==> short_branch(branch) == branch,
        branch.len() >= 9 && branch.take(9) != "worktree/"@ ==> short_branch(branch) == branch,
{
    reveal_strlit("worktree/");
    let prefix = "worktree/"@;
    lemma_prefix_removed(prefix, rest, branch);
    if branch.len() >= 9 && branch.take(9) != prefix {
        assert(!(branch.take(9) =~= prefix));
        let i = choose|i: int| 0 <= i < 9 && branch.take(9)[i] != prefix[i];
        assert(prefix[i] != branch[i]);
    }
}

/// A label is shown with the repository name in front of it exactly where the workspace is a linked
/// worktree of a repository with a name.
pub proof fn lemma_repository_name(s: AppModel, runtimes: RegistryModel, i: int)
    ensures
        ({
            let space = s.workspaces[i].space;
            let label = s.label(runtimes, i);
            let named = space is Some && space->0.is_linked_worktree && space->0.label.len() > 0;
            &&& named ==> label.repo == Some(space->0.label) && label.display() == space->0.label
                + " / "@ + label.existing
            &&& !named ==> label.repo is None && label.display() == label.existing
        }),
{
}

/// Below the title of a workspace stand the repository name, the branch unless it is the title, and
/// the activity, as far as there are any, in this order.
pub proof fn lemma_metadata(s: AppModel, runtimes: RegistryModel, i: int, expanded: bool)
    ensures
        ({
            let ws = s.workspaces[i];
            let label = s.label(runtimes, i);
            let row = s.workspace_row(i, label, expanded);
            let none = Seq::<Seq<char>>::empty();
            let from_branch = has_parent(s, i) && ws.custom_name is None;
            let hidden = ws.branch is None || ws.branch->0 == label.existing || (from_branch
                && short_branch(ws.branch->0) == label.existing);
            let repo = if label.repo is Some {
                seq![label.repo->0]
            } else {
                none
            };
            let branch = if hidden {
                none
            } else {
                seq![ws.branch->0]
            };
            let activity = if ws.activity.len() > 0 {
                seq![ws.activity]
            } else {
                none
            };
            row.secondary == repo + branch + activity
        }),
{
    lemma_has_parent(s, i);
    let ws = s.workspaces[i];
    let label = s.label(runtimes, i);
    let row = s.workspace_row(i, label, expanded);
    let none = Seq::<Seq<char>>::empty();
    let from_branch = has_parent(s, i) && ws.custom_name is None;
    let hidden = ws.branch is None || ws.branch->0 == label.existing || (from_branch
        && short_branch(ws.branch->0) == label.existing);
    let repo = if label.repo is Some {
        seq![label.repo->0]
    } else {
        none
    };
    let branch = if hidden {
        none
    } else {
        seq![ws.branch->0]
    };
    let activity = if ws.activity.len() > 0 {
        seq![ws.activity]
    } else {
        none
    };
    assert(row.secondary =~= repo + branch + activity);
}

/// The row of a workspace stands for it, and is marked where it is the active one. Its state is
/// that of the workspace.
pub proof fn lemma_workspace_row(s: AppModel, runtimes: RegistryModel, i: usize, expanded: bool)
    ensures
        ({
            let row = s.workspace_row(i as int, s.label(runtimes, i as int), expanded);
            let ws = s.workspaces[i as int];
            &&& row.target == (TargetModel::Workspace { workspace_id: ws.id })
            &&& row.ws_idx == i
            &&& row.label == s.label(runtimes, i as int)
            &&& row.is_current <==> s.active == Some(i)
            &&& row.expanded == expanded
            &&& !row.is_tab
            &&& !row.is_directory
            &&& row.depth == 0
            &&& row.state == ws.state
            &&& row.seen == ws.seen
        }),
{
}

/// The rows of the tabs of a workspace are one for each tab in order, one level below, and marked
/// where the tab is the one on top of the active workspace.
pub proof fn lemma_tab_rows(s: AppModel, i: usize, t: int)
    requires
        i < s.workspaces.len(),
        0 <= t < s.workspaces[i as int].tabs.len(),
    ensures
        ({
            let rows = s.tab_rows(i as int);
            let tab = s.workspaces[i as int].tabs[t];
            &&& rows.len() == s.workspaces[i as int].tabs.len()
            &&& rows[t].target == (TargetModel::Tab { tab_id: tab.tab_id })
            &&& rows[t].ws_idx == i
            &&& rows[t].label.existing == tab.display_name
            &&& rows[t].label.repo is None
            &&& rows[t].is_tab
            &&& !rows[t].is_directory
            &&& rows[t].depth == 1
            &&& rows[t].is_current <==> s.active == Some(i) && s.workspaces[i as int].active_tab == t
            &&& rows[t].state == tab.state
            &&& rows[t].seen == tab.seen
            &&& tab.activity.len() > 0 ==> rows[t].secondary == seq![tab.activity]
            &&& tab.activity.len() == 0 ==> rows[t].secondary.len() == 0
        }),
{
    let tab = s.workspaces[i as int].tabs[t];
    assert(Seq::<Seq<char>>::empty().push(tab.activity) =~= seq![tab.activity]);
}

/// The row of a directory shows its name, and below it its path with the home directory shortened.
pub proof fn lemma_directory_row(s: AppModel, c: CandidateModel)
    ensures
        ({
            let row = s.directory_row(c);
            &&& row.label.existing == basename(c.shown_path)
            &&& row.label.repo is None
            &&& row.secondary == seq![abbreviated(c.shown_path, s.home)]
            &&& row.target == (TargetModel::Directory {
                shown_path: c.shown_path,
                canonical_path: c.canonical_path,
            })
            &&& row.is_directory
            &&& !row.is_tab
            &&& !row.is_current
            &&& row.depth == 0
        }),
{
}

/// The rows of the first `n` workspaces by recency while quick switching: those of the first ones,
/// then the row of the last, then its tabs where it is expanded.
pub proof fn lemma_quick_rows_grow(
    s: AppModel,
    runtimes: RegistryModel,
    order: Seq<usize>,
    n: nat,
)
    requires
        n < order.len(),
        order[n as int] < s.workspaces.len(),
    ensures
        ({
            let i = order[n as int] as int;
            let shown = s.switcher.expanded.contains(s.workspaces[i].id);
            let own = s.workspace_row(i, s.label(runtimes, i), shown);
            let before = s.quick_rows(runtimes, order, n);
            let after = s.quick_rows(runtimes, order, n + 1);
            &&& shown ==> after == before + seq![own] + s.tab_rows(i)
            &&& !shown ==> after == before + seq![own]
        }),
{
    let i = order[n as int] as int;
    let shown = s.switcher.expanded.contains(s.workspaces[i].id);
    let own = s.workspace_row(i, s.label(runtimes, i), shown);
    let before = s.quick_rows(runtimes, order, n);
    assert(before.push(own) =~= before + seq![own]);
}

/// A search without a query lists every workspace by recency, and nothing else.
pub proof fn lemma_blank_search(s: AppModel, runtimes: RegistryModel, k: int)
    requires
        s.switcher.mode == WorkspaceSwitcherMode::Search,
        trim(s.switcher.query).len() == 0,
        0 <= k < s.mru_indices().len(),
    ensures
        ({
            let rows = s.switcher_rows(runtimes);
            &&& rows.len() == s.mru_indices().len()
            &&& rows[k].ws_idx == s.mru_indices()[k]
            &&& !rows[k].is_tab
            &&& !rows[k].is_directory
        }),
{
    reveal(AppModel::switcher_rows);
}

// ---------------------------------------------------------------------------
// Background work
// ---------------------------------------------------------------------------

/// What the provider found in the current session becomes the directories of the search. A provider
/// that is not there gives none.
pub proof fn lemma_provider_news(
    s: SwitcherModel,
    available: bool,
    candidates: Seq<CandidateModel>,
)
    ensures
        ({
            let t = s.after_event(
                AppEventModel::ZoxideQueryCompleted {
                    generation: s.generation,
                    available,
                    candidates,
                },
            );
            &&& available ==> t.candidates == candidates && t.status == SearchProviderStatus::Ready
            &&& !available ==> t.candidates.len() == 0 && t.status
                == SearchProviderStatus::Unavailable
            &&& t.needs_provider_refresh
            &&& t.query == s.query
            &&& t.selected == s.selected
            &&& t.cache == s.cache
            &&& s.after_event(
                AppEventModel::ZoxideQueryStarted { generation: s.generation },
            ).status == SearchProviderStatus::Loading
        }),
{
}

/// The preview of a directory of the current session is kept under its path, and the others stay.
pub proof fn lemma_preview_news(
    s: SwitcherModel,
    shown_path: Seq<char>,
    result: Option<crate::provider::DirectoryPreviewModel>,
    other: Seq<char>,
)
    ensures
        ({
            let t = s.after_event(
                AppEventModel::DirectoryPreviewCompleted {
                    generation: s.generation,
                    shown_path,
                    result,
                },
            );
            let key = crate::collections::path_key(shown_path);
            let other_key = crate::collections::path_key(other);
            &&& t.cache.contains_key(key)
            &&& result is Some ==> t.cache[key] == PreviewStateModel::Ready(result->0)
            &&& result is None ==> t.cache[key] == PreviewStateModel::Error
            &&& other_key != key ==> t.cache.contains_key(other_key) == s.cache.contains_key(
                other_key,
            ) && (s.cache.contains_key(other_key) ==> t.cache[other_key] == s.cache[other_key])
            &&& t.needs_preview_refresh == Some(shown_path)
            &&& t.candidates == s.candidates
            &&& t.query == s.query
        }),
{
}

// ---------------------------------------------------------------------------
// Previews
// ---------------------------------------------------------------------------

/// A directory that is being opened is shown before all else, and an error before any row.
pub proof fn lemma_urgent_preview(s: AppModel, runtimes: RegistryModel)
    ensures
        s.switcher.pending is Some ==> s.with_preview(runtimes).switcher.preview == (
        PreviewModel::Opening { shown_path: s.switcher.pending->0.shown_path }),
        s.switcher.pending is None && s.switcher.search_error is Some ==> s.with_preview(
            runtimes,
        ).switcher.preview == (PreviewModel::Empty { message: s.switcher.search_error->0 }),
        s.switcher.pending is None && s.switcher.search_error is None && s.switcher.selected
            >= s.switcher_rows(runtimes).len() ==> s.with_preview(runtimes).switcher.preview
            is Empty,
{
    reveal(AppModel::with_preview);
}

/// The preview of a workspace or tab that is there is its surface.
pub proof fn lemma_surface_preview(s: AppModel, runtimes: RegistryModel)
    requires
        s.switcher.pending is None,
        s.switcher.search_error is None,
        s.switcher.selected < s.switcher_rows(runtimes).len(),
        !s.switcher_rows(runtimes)[s.switcher.selected as int].is_directory,
    ensures
        ({
            let target = s.switcher_rows(runtimes)[s.switcher.selected as int].target;
            let preview = s.with_preview(runtimes).switcher.preview;
            &&& s.target_tab(target) is Some ==> preview == (PreviewModel::TabSurface { target })
            &&& s.target_tab(target) is None ==> preview is Empty
        }),
{
    reveal(AppModel::with_preview);
    reveal(AppModel::target_preview);
}

/// The preview of a directory lists its entries where they are known. Where they are not they are
/// asked for.
pub proof fn lemma_directory_preview(
    s: AppModel,
    runtimes: RegistryModel,
    shown_path: Seq<char>,
    canonical_path: Seq<char>,
)
    requires
        s.switcher.pending is None,
        s.switcher.search_error is None,
        s.switcher.selected < s.switcher_rows(runtimes).len(),
        s.switcher_rows(runtimes)[s.switcher.selected as int].is_directory,
        s.switcher_rows(runtimes)[s.switcher.selected as int].target == (TargetModel::Directory {
            shown_path,
            canonical_path,
        }),
    ensures
        ({
            let t = s.with_preview(runtimes);
            let key = crate::collections::path_key(shown_path);
            let known = s.switcher.cache.contains_key(key);
            let state = s.switcher.cache[key];
            &&& !known ==> t.switcher.preview == (PreviewModel::DirectoryLoading { shown_path })
                && t.switcher.preview_request == Some(shown_path)
            &&& known ==> t.switcher.preview_request == s.switcher.preview_request
            &&& known && state is Ready ==> t.switcher.preview == (PreviewModel::Directory {
                shown_path,
                entries: state->Ready_0.entries,
                truncated: state->Ready_0.truncated,
            })
            &&& known && state is Error ==> t.switcher.preview == (PreviewModel::DirectoryError {
                shown_path,
            })
            &&& known && state is Loading ==> t.switcher.preview == (
            PreviewModel::DirectoryLoading { shown_path })
        }),
{
    reveal(AppModel::with_preview);
    reveal(AppModel::with_preview_request);
    reveal(AppModel::directory_preview);
}

} // verus!
