//! What holds of the workspace switcher as a whole.

use vstd::prelude::*;
use crate::navigation::{distinct_below, lemma_mru_indices, lemma_workspace_from};
use crate::provider::{SearchProviderStatus, SEARCH_RESULTS_LIMIT};
use crate::row_layout::{
    lemma_layout_wf, lemma_max_scroll_is_a_row, lemma_row_at_physical_hits,
    lemma_scroll_to_show_shows, lemma_scroll_to_show_within_limit, LayoutModel,
};
use crate::rows::{same_target, RowModel, TargetModel};
use crate::sorting::{is_sorted, lemma_sorted_permutation, stably_sorted};
use crate::state::{AppModel, Mode, PreviewModel, SwitcherModel, WorkspaceSwitcherMode};
use crate::switcher_model::{
    clamped, cycled_row, position_of_workspace, row_position, workspace_positions,
};
use crate::switcher_rows::{lemma_switcher_rows_len, SearchEntry};
use crate::switcher_session::AppEventModel;
use crate::terminal::RegistryModel;
use crate::text::{is_control, lemma_without_controls, trim, without_controls};

verus! {

// ---------------------------------------------------------------------------
// What the rows depend on
// ---------------------------------------------------------------------------

/// Whether two states agree on everything that the rows depend on.
pub open spec fn lists_alike(a: AppModel, b: AppModel) -> bool {
    &&& a.workspaces == b.workspaces
    &&& a.mru == b.mru
    &&& a.active == b.active
    &&& a.home == b.home
    &&& a.switcher.mode == b.switcher.mode
    &&& a.switcher.query == b.switcher.query
    &&& a.switcher.expanded == b.switcher.expanded
    &&& a.switcher.candidates == b.switcher.candidates
    &&& a.switcher.snapshot == b.switcher.snapshot
}

proof fn lemma_same_row(a: AppModel, b: AppModel, runtimes: RegistryModel, i: int, expanded: bool)
    requires
        lists_alike(a, b),
    ensures
        a.label(runtimes, i) == b.label(runtimes, i),
        a.workspace_row(i, a.label(runtimes, i), expanded) == b.workspace_row(
            i,
            b.label(runtimes, i),
            expanded,
        ),
{
    assert(a.is_grouped_child(i) == b.is_grouped_child(i));
}

proof fn lemma_same_tab_rows(a: AppModel, b: AppModel, i: int)
    requires
        lists_alike(a, b),
    ensures
        a.tab_rows(i) == b.tab_rows(i),
{
    assert(a.tab_rows(i) =~= b.tab_rows(i));
}

proof fn lemma_same_quick_rows(
    a: AppModel,
    b: AppModel,
    runtimes: RegistryModel,
    order: Seq<usize>,
    n: nat,
)
    requires
        lists_alike(a, b),
    ensures
        a.quick_rows(runtimes, order, n) == b.quick_rows(runtimes, order, n),
    decreases n,
{
    if n > 0 {
        let i = order[n - 1] as int;
        let expanded = a.switcher.expanded.contains(a.workspaces[i].id);
        lemma_same_quick_rows(a, b, runtimes, order, (n - 1) as nat);
        lemma_same_row(a, b, runtimes, i, expanded);
        lemma_same_tab_rows(a, b, i);
    }
}

proof fn lemma_same_open_workspace(
    a: AppModel,
    b: AppModel,
    order: Seq<usize>,
    canonical: Seq<char>,
    from: int,
)
    requires
        lists_alike(a, b),
    ensures
        a.open_workspace(order, canonical, from) == b.open_workspace(order, canonical, from),
    decreases order.len() - from,
{
    if 0 <= from < order.len() {
        assert(a.is_in(order[from], canonical) == b.is_in(order[from], canonical));
        lemma_same_open_workspace(a, b, order, canonical, from + 1);
    }
}

proof fn lemma_same_rank(
    a: AppModel,
    b: AppModel,
    runtimes: RegistryModel,
    order: Seq<usize>,
    query: Seq<char>,
    i: usize,
)
    requires
        lists_alike(a, b),
    ensures
        a.workspace_rank(runtimes, order, query, i) == b.workspace_rank(runtimes, order, query, i),
{
    lemma_same_row(a, b, runtimes, i as int, false);
    assert(a.canonical_cwd(i) == b.canonical_cwd(i));
    match a.canonical_cwd(i) {
        Some(cwd) => lemma_same_open_workspace(a, b, order, cwd, 0),
        None => {},
    }
}

proof fn lemma_same_workspace_entries(
    a: AppModel,
    b: AppModel,
    runtimes: RegistryModel,
    order: Seq<usize>,
    query: Seq<char>,
    n: nat,
)
    requires
        lists_alike(a, b),
    ensures
        a.workspace_entries(runtimes, order, query, n) == b.workspace_entries(
            runtimes,
            order,
            query,
            n,
        ),
    decreases n,
{
    if n > 0 {
        lemma_same_workspace_entries(a, b, runtimes, order, query, (n - 1) as nat);
        lemma_same_rank(a, b, runtimes, order, query, order[n - 1]);
    }
}

proof fn lemma_same_directory_entries(
    a: AppModel,
    b: AppModel,
    order: Seq<usize>,
    query: Seq<char>,
    n: nat,
)
    requires
        lists_alike(a, b),
    ensures
        a.directory_entries(order, query, n) == b.directory_entries(order, query, n),
    decreases n,
{
    if n > 0 {
        lemma_same_directory_entries(a, b, order, query, (n - 1) as nat);
        lemma_same_open_workspace(
            a,
            b,
            order,
            a.switcher.candidates[n - 1].canonical_path,
            0,
        );
    }
}

/// The rows depend on the workspaces, their recency, the mode, the query, what is expanded, and
/// what the provider found, and on nothing else: not on the selection, the scroll offset or the
/// preview.
pub proof fn lemma_rows_depend(a: AppModel, b: AppModel, runtimes: RegistryModel)
    requires
        lists_alike(a, b),
    ensures
        a.switcher_rows(runtimes) == b.switcher_rows(runtimes),
{
    reveal(AppModel::switcher_rows);
    let order = a.mru_indices();
    let query = trim(a.switcher.query);
    assert(b.mru_indices() == order);
    lemma_same_quick_rows(a, b, runtimes, order, order.len());
    assert(a.workspace_rows(runtimes, order) =~= b.workspace_rows(runtimes, order)) by {
        assert forall|k: int| 0 <= k < order.len() implies #[trigger] a.workspace_rows(
            runtimes,
            order,
        )[k] == b.workspace_rows(runtimes, order)[k] by {
            lemma_same_row(a, b, runtimes, order[k] as int, false);
        }
    }
    lemma_same_workspace_entries(a, b, runtimes, order, query, order.len());
    lemma_same_directory_entries(a, b, order, query, a.switcher.candidates.len());
    let entries = a.search_entries(runtimes, query, order);
    assert(b.search_entries(runtimes, query, order) == entries);
    assert(a.search_rows(runtimes, query, order) =~= b.search_rows(runtimes, query, order)) by {
        assert forall|k: int|
            0 <= k < a.search_rows(runtimes, query, order).len() implies #[trigger] a.search_rows(
            runtimes,
            query,
            order,
        )[k] == b.search_rows(runtimes, query, order)[k] by {
            lemma_same_row(a, b, runtimes, entries[k].source as int, false);
            assert(a.directory_row(a.switcher.candidates[entries[k].source as int])
                == b.directory_row(b.switcher.candidates[entries[k].source as int]));
        }
    }
}

// ---------------------------------------------------------------------------
// Selection
// ---------------------------------------------------------------------------

/// Whether `b` lists what `a` lists in the same place, with the same row selected, and both are
/// open or not.
pub open spec fn selects_alike(a: AppModel, b: AppModel) -> bool {
    &&& lists_alike(a, b)
    &&& a.view == b.view
    &&& a.switcher.active == b.switcher.active
    &&& a.switcher.selected == b.switcher.selected
}

proof fn lemma_showing_keeps(s: AppModel, preview: PreviewModel)
    ensures
        selects_alike(s, s.showing(preview)),
        s.showing(preview).switcher.scroll == s.switcher.scroll,
{
}

proof fn lemma_request_keeps(s: AppModel, path: Seq<char>)
    ensures
        selects_alike(s, s.with_preview_request(path)),
        s.with_preview_request(path).switcher.scroll == s.switcher.scroll,
{
    reveal(AppModel::with_preview_request);
}

proof fn lemma_showing_target_keeps(s: AppModel, is_directory: bool, target: TargetModel)
    ensures
        selects_alike(s, s.showing_target(is_directory, target)),
        s.showing_target(is_directory, target).switcher.scroll == s.switcher.scroll,
{
    if !is_directory {
        lemma_showing_keeps(s, s.target_preview(target));
    } else if let TargetModel::Directory { shown_path, canonical_path } = target {
        lemma_request_keeps(s, shown_path);
        lemma_showing_keeps(s.with_preview_request(shown_path), s.directory_preview(shown_path));
    }
}

pub(crate) proof fn lemma_preview_keeps(s: AppModel, runtimes: RegistryModel)
    ensures
        selects_alike(s, s.with_preview(runtimes)),
        s.with_preview(runtimes).switcher.scroll == s.switcher.scroll,
{
    reveal(AppModel::with_preview);
    let rows = s.switcher_rows(runtimes);
    if s.urgent_preview() is Some {
        lemma_showing_keeps(s, s.urgent_preview()->0);
    } else if s.switcher.selected >= rows.len() {
        lemma_showing_keeps(s, s.with_preview(runtimes).switcher.preview);
    } else {
        let row = rows[s.switcher.selected as int];
        lemma_showing_target_keeps(s, row.is_directory, row.target);
    }
}

pub(crate) proof fn lemma_target_keeps(s: AppModel, runtimes: RegistryModel)
    ensures
        selects_alike(s, s.with_target(runtimes)),
        s.with_target(runtimes).switcher.scroll == s.switcher.scroll,
        s.with_target(runtimes).switcher.selected_target == s.target_at_selection(runtimes),
{
    reveal(AppModel::with_target);
    reveal(AppModel::with_anchor);
}

pub(crate) proof fn lemma_settled(s: AppModel, runtimes: RegistryModel)
    ensures
        selects_alike(s, s.settled(runtimes)),
        s.settled(runtimes).switcher.scroll == s.row_layout(runtimes).scroll_to_show(
            s.switcher.selected as int,
            s.switcher.scroll as int,
        ) as usize,
        s.settled(runtimes).switcher.selected_target == s.target_at_selection(runtimes),
{
    reveal(AppModel::settled);
    reveal(AppModel::scrolled_to_selection);
    reveal(AppModel::with_anchor);
    let scrolled = s.scrolled_to_selection(runtimes);
    assert(selects_alike(s, scrolled));
    lemma_preview_keeps(scrolled, runtimes);
    lemma_target_keeps(scrolled.with_preview(runtimes), runtimes);
    lemma_rows_depend(s, scrolled.with_preview(runtimes), runtimes);
    reveal(AppModel::target_at_selection);
}

proof fn lemma_same_layout(a: AppModel, b: AppModel, runtimes: RegistryModel)
    requires
        selects_alike(a, b),
    ensures
        a.row_layout(runtimes) == b.row_layout(runtimes),
{
    lemma_rows_depend(a, b, runtimes);
    reveal(AppModel::switcher_body);
}

/// Whether the selected row is completely in the window.
pub open spec fn selection_shown(s: AppModel, runtimes: RegistryModel) -> bool {
    s.row_layout(runtimes).shows(s.switcher.selected as int, s.switcher.scroll as int)
}

/// Whether the list can hold the selected row at all.
pub open spec fn selection_fits(s: AppModel, runtimes: RegistryModel) -> bool {
    s.row_layout(runtimes).height(s.switcher.selected as int) <= s.switcher_body().height
}

/// Settling on a selection shows it, wherever the list can hold it at all.
pub proof fn lemma_settled_shows_selection(s: AppModel, runtimes: RegistryModel)
    requires
        s.within_limits(),
        s.workspaces.len() <= usize::MAX,
        s.switcher.selected < s.switcher_rows(runtimes).len(),
        selection_fits(s, runtimes),
    ensures
        selection_shown(s.settled(runtimes), runtimes),
{
    let layout = s.row_layout(runtimes);
    let selected = s.switcher.selected as int;
    lemma_settled(s, runtimes);
    lemma_same_layout(s, s.settled(runtimes), runtimes);
    lemma_layout_wf(s.switcher_rows(runtimes), s.switcher_body().height as nat);
    assert(layout.prefix[selected] + 1 <= layout.prefix[selected + 1]);
    lemma_scroll_to_show_shows(layout, selected, s.switcher.scroll as int);
    lemma_scroll_to_show_within_limit(layout, selected, s.switcher.scroll as int);
    lemma_max_scroll_is_a_row(layout);
    assert(s.switcher_rows(runtimes).len() <= usize::MAX) by {
        reveal(AppModel::countable);
        lemma_switcher_rows_len(s, runtimes);
    }
}

/// Where a move leads.
pub(crate) proof fn lemma_moved(s: AppModel, runtimes: RegistryModel, delta: int)
    requires
        s.switcher.selected < s.switcher_rows(runtimes).len() <= usize::MAX,
    ensures
        ({
            let rows = s.switcher_rows(runtimes);
            let row = clamped(s.switcher.selected + delta, rows.len() - 1);
            let t = s.moved_selection(runtimes, delta);
            &&& t == s.with_selected(row as usize).settled(runtimes)
            &&& t.switcher.selected == row
            &&& t.switcher.selected_target == Some(rows[row].target)
            &&& t.switcher.active == s.switcher.active
            &&& lists_alike(s, t)
            &&& t.switcher_rows(runtimes) == rows
        }),
{
    let count = s.switcher_rows(runtimes).len() as int;
    let row = clamped(s.switcher.selected + delta, count - 1) as usize;
    let m = s.with_selected(row);
    assert(s.moved_selection(runtimes, delta) == m.settled(runtimes)) by {
        reveal(AppModel::moved_selection);
    }
    lemma_rows_depend(s, m, runtimes);
    lemma_settled(m, runtimes);
    lemma_rows_depend(m, m.settled(runtimes), runtimes);
    assert(m.target_at_selection(runtimes) == Some(s.switcher_rows(runtimes)[row as int].target))
        by {
        reveal(AppModel::target_at_selection);
    }
}

/// Moving goes to a row of the list, `delta` rows away or as far as the list goes, records its
/// target, and shows it wherever the list can hold it. It changes neither the list nor whether the
/// switcher is open, and a move that stays in the list is undone by the opposite one.
pub proof fn lemma_move(s: AppModel, runtimes: RegistryModel, delta: int)
    requires
        s.within_limits(),
        s.workspaces.len() <= usize::MAX,
        s.switcher.selected < s.switcher_rows(runtimes).len(),
    ensures
        ({
            let count = s.switcher_rows(runtimes).len();
            let t = s.moved_selection(runtimes, delta);
            &&& t.switcher_rows(runtimes) == s.switcher_rows(runtimes)
            &&& t.switcher.selected == clamped(s.switcher.selected + delta, count - 1)
            &&& t.switcher.selected < count
            &&& t.switcher.selected_target == Some(
                s.switcher_rows(runtimes)[t.switcher.selected as int].target,
            )
            &&& t.switcher.active == s.switcher.active
            &&& lists_alike(s, t)
            &&& selection_fits(t, runtimes) ==> selection_shown(t, runtimes)
            &&& 0 <= s.switcher.selected + delta < count ==> t.moved_selection(
                runtimes,
                -delta,
            ).switcher.selected == s.switcher.selected
        }),
{
    let count = s.switcher_rows(runtimes).len() as int;
    let m = s.with_selected(clamped(s.switcher.selected + delta, count - 1) as usize);
    let t = m.settled(runtimes);
    assert(count <= usize::MAX) by {
        reveal(AppModel::countable);
        lemma_switcher_rows_len(s, runtimes);
    }
    lemma_moved(s, runtimes, delta);
    lemma_moved(t, runtimes, -delta);
    assert(selection_fits(t, runtimes) ==> selection_shown(t, runtimes)) by {
        lemma_settled(m, runtimes);
        lemma_rows_depend(s, m, runtimes);
        lemma_same_layout(m, t, runtimes);
        crate::navigation::lemma_limits_kept(s, m);
        if selection_fits(t, runtimes) {
            reveal(AppModel::switcher_body);
            lemma_settled_shows_selection(m, runtimes);
        }
    }
}

/// A target that is recorded is found again wherever its row is now: the selection is on the
/// first row with that target, and the target stays recorded.
pub proof fn lemma_reanchored(s: AppModel, runtimes: RegistryModel, target: TargetModel, p: int)
    requires
        s.switcher.active,
        s.switcher.selected_target == Some(target),
        row_position(
            s.switcher_rows(runtimes),
            |row: RowModel| same_target(row.target, target),
            0,
        ) == Some(p),
        s.switcher_rows(runtimes).len() <= usize::MAX,
    ensures
        ({
            let t = s.reanchored(runtimes);
            let rows = s.switcher_rows(runtimes);
            &&& t.switcher_rows(runtimes) == rows
            &&& t.switcher.selected == p
            &&& p < rows.len()
            &&& same_target(rows[p].target, target)
            &&& t.switcher.selected_target == Some(rows[p].target)
        }),
{
    reveal(AppModel::reanchored);
    let rows = s.switcher_rows(runtimes);
    lemma_row_position(rows, |row: RowModel| same_target(row.target, target), 0);
    let scroll = s.row_layout(runtimes).scroll_to_preserve_offset(
        p,
        s.switcher.viewport_offset as int,
        s.switcher.scroll as int,
    );
    let m = s.with_selected(p as usize).with_scroll(scroll as usize);
    lemma_rows_depend(s, m, runtimes);
    lemma_preview_keeps(m, runtimes);
    let shown = m.with_preview(runtimes);
    lemma_rows_depend(m, shown, runtimes);
    lemma_target_keeps(shown, runtimes);
    lemma_rows_depend(shown, shown.with_target(runtimes), runtimes);
    reveal(AppModel::target_at_selection);
}

proof fn lemma_row_position(rows: Seq<RowModel>, p: spec_fn(RowModel) -> bool, from: int)
    requires
        0 <= from,
    ensures
        match row_position(rows, p, from) {
            Some(i) => from <= i < rows.len() && p(rows[i]) && forall|k: int|
                from <= k < i ==> !p(#[trigger] rows[k]),
            None => forall|k: int| from <= k < rows.len() ==> !p(#[trigger] rows[k]),
        },
    decreases rows.len() - from,
{
    if from < rows.len() && !p(rows[from]) {
        lemma_row_position(rows, p, from + 1);
    }
}

// ---------------------------------------------------------------------------
// Sessions
// ---------------------------------------------------------------------------

/// News of another search session than the current one changes nothing.
pub proof fn lemma_stale_event_ignored(s: SwitcherModel, event: AppEventModel)
    requires
        event.generation() != s.generation,
    ensures
        s.after_event(event) == s,
{
}

/// A new search session starts without anything of the one before it, and news of that one does
/// not reach it.
pub proof fn lemma_new_session(s: AppModel, event: AppEventModel)
    requires
        event.generation() == s.switcher.generation,
    ensures
        ({
            let t = s.search_started();
            &&& t.switcher.candidates.len() == 0
            &&& t.switcher.status == SearchProviderStatus::Idle
            &&& t.switcher.pending is None
            &&& t.switcher.search_error is None
            &&& t.switcher.cache == crate::collections::CacheModel::empty()
            &&& t.switcher.query.len() == 0
            &&& t.switcher.selected == 0
            &&& t.switcher.scroll == 0
            &&& t.switcher.after_event(event) == t.switcher
        }),
{
}

/// A closed switcher keeps nothing of a search session, and the keyboard goes back to the terminal
/// where there is an active workspace.
pub proof fn lemma_closed(s: AppModel)
    ensures
        ({
            let t = s.switcher_closed();
            &&& !t.switcher.active
            &&& t.switcher.selected_target is None
            &&& t.switcher.candidates.len() == 0
            &&& t.switcher.pending is None
            &&& t.switcher.status == SearchProviderStatus::Idle
            &&& t.workspaces == s.workspaces
            &&& t.active == s.active
            &&& t.mru == s.mru
            &&& t.mode == if s.active is Some {
                Mode::Terminal
            } else {
                Mode::Navigate
            }
        }),
{
    reveal(AppModel::switcher_closed);
}

/// While a directory is being opened, nothing else can be accepted.
pub proof fn lemma_pending_blocks_acceptance(s: AppModel, runtimes: RegistryModel)
    requires
        s.switcher.pending is Some,
    ensures
        !s.accepts(runtimes),
        s.accepted(runtimes) == s,
{
    reveal(AppModel::accepts);
    reveal(AppModel::accepted);
}

/// An acceptance that fails changes nothing.
pub proof fn lemma_failed_acceptance(s: AppModel, runtimes: RegistryModel)
    requires
        !s.accepts(runtimes),
    ensures
        s.accepted(runtimes) == s,
{
    reveal(AppModel::accepts);
    reveal(AppModel::accepted);
    reveal(AppModel::focused_target);
}

/// Accepting a workspace makes the workspace with the recorded id the active and most recently
/// used one, wherever it stands in the list by then, and the switcher is gone.
pub proof fn lemma_accepted_by_identity(s: AppModel, runtimes: RegistryModel, id: Seq<char>)
    requires
        s.workspaces.len() <= usize::MAX,
        s.switcher.selected_target == Some(TargetModel::Workspace { workspace_id: id }),
        s.accepts(runtimes),
    ensures
        ({
            let t = s.accepted(runtimes);
            &&& t.active is Some
            &&& t.active->0 < t.workspaces.len()
            &&& t.workspaces[t.active->0 as int].id == id
            &&& t.mru[0] == id
            &&& t.mode == Mode::Terminal
            &&& !t.switcher.active
            &&& t.workspaces == s.workspaces
        }),
{
    reveal(AppModel::accepts);
    reveal(AppModel::accepted);
    reveal(AppModel::focused_target);
    lemma_workspace_from(s.workspaces, id, 0);
}

/// What is pasted into a query has no control characters, and the query stays in front of it.
pub proof fn lemma_paste(s: AppModel, runtimes: RegistryModel, text: Seq<char>)
    requires
        s.takes_paste(),
    ensures
        ({
            let query = s.query_pasted(runtimes, text).switcher.query;
            &&& query == s.switcher.query + without_controls(text)
            &&& forall|i: int|
                s.switcher.query.len() <= i < query.len() ==> !is_control(#[trigger] query[i])
        }),
{
    reveal(AppModel::query_pasted);
    lemma_settled(s.with_pasted(text), runtimes);
    lemma_without_controls(text);
    let query = s.switcher.query + without_controls(text);
    assert forall|i: int| s.switcher.query.len() <= i < query.len() implies !is_control(
        #[trigger] query[i],
    ) by {
        assert(query[i] == without_controls(text)[i - s.switcher.query.len()]);
    }
}

/// Outside a search, a paste changes nothing.
pub proof fn lemma_paste_outside_search(s: AppModel, runtimes: RegistryModel, text: Seq<char>)
    requires
        !s.takes_paste(),
    ensures
        s.query_pasted(runtimes, text) == s,
{
    reveal(AppModel::query_pasted);
}

// ---------------------------------------------------------------------------
// Expanding and cycling
// ---------------------------------------------------------------------------

/// Expanding the selected workspace expands it and nothing else, and doing it again changes
/// nothing more of what is expanded.
pub proof fn lemma_expand(s: AppModel, runtimes: RegistryModel, i: usize)
    requires
        s.selected_workspace(runtimes) == Some(i),
        i < s.workspaces.len(),
    ensures
        s.expanded_selection(runtimes).switcher.expanded == s.switcher.expanded.insert(
            s.workspaces[i as int].id,
        ),
        ({
            let e = s.with_expanded(s.switcher.expanded.insert(s.workspaces[i as int].id));
            &&& lists_alike(e, s.expanded_selection(runtimes))
            &&& s.expanded_selection(runtimes).switcher.selected == clamped(
                s.switcher.selected as int,
                crate::geometry::minus(e.switcher_rows(runtimes).len() as int, 1),
            ) as usize
        }),
{
    reveal(AppModel::expanded_selection);
    reveal(AppModel::clamped_selection);
    let id = s.workspaces[i as int].id;
    let e = s.with_expanded(s.switcher.expanded.insert(id));
    let count = e.switcher_rows(runtimes).len() as int;
    lemma_settled(
        e.with_selected(
            clamped(e.switcher.selected as int, crate::geometry::minus(count, 1)) as usize,
        ),
        runtimes,
    );
}

/// Collapsing the workspace of the selected row hides its tabs and those of no other, also where
/// it was just expanded; the selection goes to the row of the workspace itself.
pub proof fn lemma_collapse(s: AppModel, runtimes: RegistryModel, i: usize)
    requires
        s.ws_idx_at_selection(runtimes) == Some(i),
        i < s.workspaces.len(),
    ensures
        ({
            let t = s.collapsed_selection(runtimes);
            let id = s.workspaces[i as int].id;
            &&& t.switcher.expanded == s.switcher.expanded.remove(id)
            &&& !t.switcher.expanded.contains(id)
            &&& t.switcher.selected == t.row_of_workspace(runtimes, i)
            &&& lists_alike(s.with_expanded(s.switcher.expanded.remove(id)), t)
        }),
{
    reveal(AppModel::collapsed_selection);
    let id = s.workspaces[i as int].id;
    let c = s.with_expanded(s.switcher.expanded.remove(id));
    let m = c.with_selected(c.row_of_workspace(runtimes, i));
    lemma_settled(m, runtimes);
    lemma_rows_depend(c, m.settled(runtimes), runtimes);
}

proof fn lemma_workspace_positions(rows: Seq<RowModel>, n: nat)
    requires
        n <= rows.len() <= usize::MAX,
    ensures
        ({
            let positions = workspace_positions(rows, n);
            &&& forall|k: int|
                0 <= k < positions.len() ==> {
                    &&& #[trigger] positions[k] < n
                    &&& !rows[positions[k] as int].is_tab
                    &&& !rows[positions[k] as int].is_directory
                }
            &&& forall|j: int, k: int|
                0 <= j < k < positions.len() ==> #[trigger] positions[j] < #[trigger] positions[k]
            &&& forall|r: int|
                0 <= r < n && !(#[trigger] rows[r]).is_tab && !rows[r].is_directory
                    ==> positions.contains(r as usize)
        }),
    decreases n,
{
    if n > 0 {
        lemma_workspace_positions(rows, (n - 1) as nat);
        let before = workspace_positions(rows, (n - 1) as nat);
        let positions = workspace_positions(rows, n);
        assert forall|r: int|
            0 <= r < n && !(#[trigger] rows[r]).is_tab
                && !rows[r].is_directory implies positions.contains(r as usize) by {
            if r < n - 1 {
                assert(before.contains(r as usize));
                let k = choose|k: int| 0 <= k < before.len() && before[k] == r as usize;
                assert(positions[k] == r as usize);
            } else {
                assert(positions[positions.len() - 1] == r as usize);
            }
        }
    }
}

/// Whether every workspace has at most one row of its own.
pub open spec fn one_row_each(rows: Seq<RowModel>) -> bool {
    forall|i: int, j: int|
        0 <= i < j < rows.len() && !rows[i].is_tab && !rows[i].is_directory && !rows[j].is_tab
            && !rows[j].is_directory ==> (#[trigger] rows[i]).ws_idx != (#[trigger] rows[j]).ws_idx
}

proof fn lemma_position_of_workspace(
    rows: Seq<RowModel>,
    positions: Seq<usize>,
    k: int,
    from: int,
)
    requires
        one_row_each(rows),
        rows.len() <= usize::MAX,
        positions == workspace_positions(rows, rows.len()),
        0 <= from <= k < positions.len(),
    ensures
        position_of_workspace(rows, positions, rows[positions[k] as int].ws_idx, from) == Some(k),
    decreases k - from,
{
    lemma_workspace_positions(rows, rows.len());
    if from < k {
        assert(positions[from] < positions[k]);
        assert(rows[positions[from] as int].ws_idx != rows[positions[k] as int].ws_idx);
        lemma_position_of_workspace(rows, positions, k, from + 1);
    }
}

/// Whether the rows that belong to no workspace are those of directories, and every workspace has
/// at most one row of its own.
pub open spec fn rows_indexed(rows: Seq<RowModel>) -> bool {
    &&& one_row_each(rows)
    &&& forall|r: int|
        0 <= r < rows.len() ==> ((#[trigger] rows[r]).is_directory <==> rows[r].ws_idx
            == usize::MAX)
}

/// Whether cycling from row `selected` starts at the workspace row with number `k`: the row of the
/// workspace that the selected row belongs to, or the first one where a directory is selected.
pub open spec fn cycles_from(rows: Seq<RowModel>, selected: usize, k: int) -> bool {
    let positions = workspace_positions(rows, rows.len());
    &&& selected < rows.len()
    &&& 0 <= k < positions.len()
    &&& rows[positions[k] as int].ws_idx == rows[selected as int].ws_idx || (
    rows[selected as int].is_directory && k == 0)
}

proof fn lemma_position_of_none(
    rows: Seq<RowModel>,
    positions: Seq<usize>,
    ws_idx: usize,
    from: int,
)
    requires
        0 <= from,
        forall|k: int|
            0 <= k < positions.len() ==> rows[#[trigger] positions[k] as int].ws_idx != ws_idx,
    ensures
        position_of_workspace(rows, positions, ws_idx, from) is None,
    decreases positions.len() - from,
{
    if from < positions.len() {
        assert(rows[positions[from] as int].ws_idx != ws_idx);
        lemma_position_of_none(rows, positions, ws_idx, from + 1);
    }
}

proof fn lemma_cycle_start(rows: Seq<RowModel>, selected: usize, delta: int, k: int)
    requires
        rows.len() <= usize::MAX,
        rows_indexed(rows),
        cycles_from(rows, selected, k),
    ensures
        ({
            let positions = workspace_positions(rows, rows.len());
            cycled_row(rows, selected, delta) == positions[(k + delta) % (positions.len() as int)]
        }),
{
    let positions = workspace_positions(rows, rows.len());
    lemma_workspace_positions(rows, rows.len());
    if rows[selected as int].is_directory {
        assert forall|j: int| 0 <= j < positions.len() implies rows[#[trigger] positions[
            j] as int].ws_idx != rows[selected as int].ws_idx by {
            assert(!rows[positions[j] as int].is_directory);
        }
        lemma_position_of_none(rows, positions, rows[selected as int].ws_idx, 0);
        assert(rows[positions[k] as int].ws_idx != rows[selected as int].ws_idx);
    } else {
        lemma_position_of_workspace(rows, positions, k, 0);
    }
}

/// Cycling goes round the rows of workspaces: from the one with number `k` by `delta` to the one
/// with number `k + delta`, modulo how many there are. So going back by `delta` leads to where it
/// started, and so does going round once.
pub proof fn lemma_cycled_row(rows: Seq<RowModel>, selected: usize, delta: int, k: int)
    requires
        rows.len() <= usize::MAX,
        rows_indexed(rows),
        cycles_from(rows, selected, k),
    ensures
        ({
            let positions = workspace_positions(rows, rows.len());
            let n = positions.len() as int;
            let next = cycled_row(rows, selected, delta);
            &&& next == positions[(k + delta) % n]
            &&& next < rows.len()
            &&& !rows[next as int].is_tab
            &&& !rows[next as int].is_directory
            &&& cycled_row(rows, next, -delta) == positions[k]
            &&& cycled_row(rows, selected, n) == positions[k]
            &&& !rows[selected as int].is_tab && !rows[selected as int].is_directory
                ==> positions[k] == selected
        }),
{
    let positions = workspace_positions(rows, rows.len());
    let n = positions.len() as int;
    lemma_workspace_positions(rows, rows.len());
    let d = (k + delta) % n;
    assert(0 <= d < n);
    lemma_cycle_start(rows, selected, delta, k);
    lemma_cycle_start(rows, selected, n, k);
    lemma_cycle_start(rows, positions[d], -delta, d);
    assert((d + -delta) % n == k) by {
        vstd::arithmetic::div_mod::lemma_add_mod_noop(k + delta, -delta, n);
        vstd::arithmetic::div_mod::lemma_add_mod_noop(d, -delta, n);
        vstd::arithmetic::div_mod::lemma_small_mod(d as nat, n as nat);
        vstd::arithmetic::div_mod::lemma_small_mod(k as nat, n as nat);
    }
    assert((k + n) % n == k) by {
        vstd::arithmetic::div_mod::lemma_mod_add_multiples_vanish(k, n);
        vstd::arithmetic::div_mod::lemma_small_mod(k as nat, n as nat);
    }
    if !rows[selected as int].is_tab && !rows[selected as int].is_directory {
        let at = positions[k] as int;
        if at < selected {
            assert(rows[at].ws_idx != rows[selected as int].ws_idx);
        } else if selected < at {
            assert(rows[selected as int].ws_idx != rows[at].ws_idx);
        }
    }
}

proof fn lemma_quick_rows_workspaces(
    s: AppModel,
    runtimes: RegistryModel,
    order: Seq<usize>,
    n: nat,
)
    requires
        n <= order.len(),
        distinct_below(order, s.workspaces.len()),
    ensures
        ({
            let rows = s.quick_rows(runtimes, order, n);
            &&& one_row_each(rows)
            &&& forall|r: int|
                0 <= r < rows.len() ==> {
                    &&& !(#[trigger] rows[r]).is_directory
                    &&& order.take(n as int).contains(rows[r].ws_idx)
                }
        }),
    decreases n,
{
    if n > 0 {
        let m = (n - 1) as nat;
        lemma_quick_rows_workspaces(s, runtimes, order, m);
        let before = s.quick_rows(runtimes, order, m);
        let rows = s.quick_rows(runtimes, order, n);
        let i = order[n - 1];
        assert(i < s.workspaces.len());
        assert forall|r: int| 0 <= r < rows.len() implies {
            &&& !(#[trigger] rows[r]).is_directory
            &&& order.take(n as int).contains(rows[r].ws_idx)
            &&& r < before.len() ==> rows[r] == before[r]
            &&& r >= before.len() ==> rows[r].ws_idx == i
            &&& r > before.len() ==> rows[r].is_tab
        } by {
            if r < before.len() {
                assert(rows[r] == before[r]);
                assert(order.take(m as int).contains(before[r].ws_idx));
                let k = choose|k: int|
                    0 <= k < order.take(m as int).len() && order.take(m as int)[k]
                        == before[r].ws_idx;
                assert(order.take(n as int)[k] == before[r].ws_idx);
            } else {
                assert(order.take(n as int)[n - 1] == i);
            }
        }
        assert forall|a: int, b: int|
            0 <= a < b < rows.len() && !rows[a].is_tab && !rows[a].is_directory && !rows[b].is_tab
                && !rows[b].is_directory implies (#[trigger] rows[a]).ws_idx
            != (#[trigger] rows[b]).ws_idx by {
            if b >= before.len() {
                assert(b == before.len());
                assert(order.take(m as int).contains(before[a].ws_idx));
                let k = choose|k: int|
                    0 <= k < order.take(m as int).len() && order.take(m as int)[k]
                        == before[a].ws_idx;
                assert(order[k] == before[a].ws_idx);
                assert(order[k] != order[n - 1]);
            } else {
                assert(before[a].ws_idx != before[b].ws_idx);
            }
        }
    }
}

/// Whether no two results stand for the same workspace or the same directory.
pub open spec fn sources_once(entries: Seq<SearchEntry>) -> bool {
    forall|i: int, j: int|
        0 <= i < j < entries.len() && (#[trigger] entries[i]).is_directory == (
        #[trigger] entries[j]).is_directory ==> entries[i].source != entries[j].source
}

/// Sorting results that stand for different things leaves them different.
pub proof fn lemma_sorted_sources_once(all: Seq<SearchEntry>)
    requires
        sources_once(all),
    ensures
        sources_once(stably_sorted::<SearchEntry>(all)),
{
    broadcast use vstd::seq_lib::group_to_multiset_ensures;

    let sorted = stably_sorted::<SearchEntry>(all);
    lemma_sorted_permutation::<SearchEntry>(all);
    assert(all.no_duplicates()) by {
        assert forall|i: int, j: int| 0 <= i < j < all.len() implies all[i] != all[j] by {
            assert(all[i].is_directory == all[j].is_directory ==> all[i].source != all[j].source);
        }
    }
    all.lemma_multiset_has_no_duplicates();
    sorted.lemma_multiset_has_no_duplicates_conv();
    assert forall|i: int, j: int|
        0 <= i < j < sorted.len() && (#[trigger] sorted[i]).is_directory == (
        #[trigger] sorted[j]).is_directory implies sorted[i].source != sorted[j].source by {
        assert(sorted.contains(sorted[i]));
        assert(sorted.contains(sorted[j]));
        assert(all.to_multiset().count(sorted[i]) > 0);
        assert(all.to_multiset().count(sorted[j]) > 0);
        assert(all.contains(sorted[i]));
        assert(all.contains(sorted[j]));
        let a = choose|a: int| 0 <= a < all.len() && all[a] == sorted[i];
        let b = choose|b: int| 0 <= b < all.len() && all[b] == sorted[j];
        if a < b {
            assert(all[a].source != all[b].source);
        } else if b < a {
            assert(all[b].source != all[a].source);
        }
    }
}

proof fn lemma_workspace_entries_once(
    s: AppModel,
    runtimes: RegistryModel,
    query: Seq<char>,
    order: Seq<usize>,
    n: nat,
)
    requires
        n <= order.len(),
        distinct_below(order, s.workspaces.len()),
    ensures
        ({
            let entries = s.workspace_entries(runtimes, order, query, n);
            &&& sources_once(entries)
            &&& forall|k: int|
                0 <= k < entries.len() ==> order.take(n as int).contains(
                    (#[trigger] entries[k]).source,
                )
        }),
    decreases n,
{
    if n > 0 {
        let m = (n - 1) as nat;
        lemma_workspace_entries_once(s, runtimes, query, order, m);
        let before = s.workspace_entries(runtimes, order, query, m);
        let entries = s.workspace_entries(runtimes, order, query, n);
        assert forall|k: int| 0 <= k < before.len() implies order.take(n as int).contains(
            (#[trigger] before[k]).source,
        ) && before[k].source != order[n - 1] by {
            assert(order.take(m as int).contains(before[k].source));
            let j = choose|j: int|
                0 <= j < order.take(m as int).len() && order.take(m as int)[j] == before[k].source;
            assert(order.take(n as int)[j] == before[k].source);
            assert(order[j] != order[n - 1]);
        }
        assert(order.take(n as int)[n - 1] == order[n - 1]);
        assert forall|k: int| 0 <= k < entries.len() implies order.take(n as int).contains(
            (#[trigger] entries[k]).source,
        ) by {
            if k < before.len() {
                assert(entries[k] == before[k]);
            }
        }
        assert forall|i: int, j: int|
            0 <= i < j < entries.len() && (#[trigger] entries[i]).is_directory == (
            #[trigger] entries[j]).is_directory implies entries[i].source != entries[j].source by {
            assert(entries[i] == before[i]);
            if j < before.len() {
                assert(entries[j] == before[j]);
            }
        }
    }
}

proof fn lemma_directory_entries_once(s: AppModel, query: Seq<char>, order: Seq<usize>, n: nat)
    requires
        n <= s.switcher.candidates.len() <= usize::MAX,
    ensures
        ({
            let entries = s.directory_entries(order, query, n);
            &&& sources_once(entries)
            &&& forall|k: int| 0 <= k < entries.len() ==> (#[trigger] entries[k]).source < n
        }),
    decreases n,
{
    if n > 0 {
        lemma_directory_entries_once(s, query, order, (n - 1) as nat);
        let before = s.directory_entries(order, query, (n - 1) as nat);
        let entries = s.directory_entries(order, query, n);
        assert forall|i: int, j: int|
            0 <= i < j < entries.len() && (#[trigger] entries[i]).is_directory == (
            #[trigger] entries[j]).is_directory implies entries[i].source != entries[j].source by {
            assert(entries[i] == before[i]);
            if j < before.len() {
                assert(entries[j] == before[j]);
            }
        }
    }
}

proof fn lemma_search_entries_once(
    s: AppModel,
    runtimes: RegistryModel,
    query: Seq<char>,
    order: Seq<usize>,
)
    requires
        s.switcher.candidates.len() <= usize::MAX,
        distinct_below(order, s.workspaces.len()),
    ensures
        sources_once(s.search_entries(runtimes, query, order)),
{
    let a = s.workspace_entries(runtimes, order, query, order.len());
    let b = s.directory_entries(order, query, s.switcher.candidates.len());
    lemma_workspace_entries(s, runtimes, query, order, order.len());
    lemma_workspace_entries_once(s, runtimes, query, order, order.len());
    lemma_directory_entries(s, query, order, s.switcher.candidates.len());
    lemma_directory_entries_once(s, query, order, s.switcher.candidates.len());
    let all = a + b;
    assert forall|i: int, j: int|
        0 <= i < j < all.len() && (#[trigger] all[i]).is_directory == (
        #[trigger] all[j]).is_directory implies all[i].source != all[j].source by {
        if j < a.len() {
            assert(a[i].source != a[j].source);
        } else if i >= a.len() {
            assert(b[i - a.len()].source != b[j - a.len()].source);
        } else {
            assert(!a[i].is_directory);
            assert(b[j - a.len()].is_directory);
        }
    }
    lemma_sorted_sources_once(all);
}

/// In every mode each workspace has at most one row of its own, and only directories belong to
/// none.
pub proof fn lemma_rows_indexed(s: AppModel, runtimes: RegistryModel)
    requires
        s.workspaces.len() <= usize::MAX,
        s.switcher.candidates.len() <= usize::MAX,
    ensures
        rows_indexed(s.switcher_rows(runtimes)),
{
    reveal(AppModel::switcher_rows);
    let order = s.mru_indices();
    let query = trim(s.switcher.query);
    let rows = s.switcher_rows(runtimes);
    lemma_mru_indices(s);
    if s.switcher.mode == WorkspaceSwitcherMode::QuickSwitch {
        lemma_quick_rows_workspaces(s, runtimes, order, order.len());
        assert(order.take(order.len() as int) =~= order);
        assert forall|r: int| 0 <= r < rows.len() implies ((#[trigger] rows[r]).is_directory
            <==> rows[r].ws_idx == usize::MAX) by {
            assert(order.contains(rows[r].ws_idx));
        }
    } else if query.len() == 0 {
        assert(rows == s.workspace_rows(runtimes, order));
        assert forall|r: int| 0 <= r < rows.len() implies ((#[trigger] rows[r]).is_directory
            <==> rows[r].ws_idx == usize::MAX) && rows[r].ws_idx == order[r] by {
            assert(order[r] < s.workspaces.len());
        }
        assert forall|i: int, j: int|
            0 <= i < j < rows.len() implies (#[trigger] rows[i]).ws_idx != (
        #[trigger] rows[j]).ws_idx by {
            assert(order[i] != order[j]);
        }
    } else {
        let entries = s.search_entries(runtimes, query, order);
        lemma_search_entries_once(s, runtimes, query, order);
        assert(rows == s.search_rows(runtimes, query, order));
        assert forall|r: int| 0 <= r < rows.len() implies ((#[trigger] rows[r]).is_directory
            <==> rows[r].ws_idx == usize::MAX) && rows[r].is_directory == entries[r].is_directory
            && (!rows[r].is_directory ==> rows[r].ws_idx == entries[r].source) by {
            lemma_search_results(s, runtimes, query, order, r);
        }
        assert forall|i: int, j: int|
            0 <= i < j < rows.len() && !rows[i].is_tab && !rows[i].is_directory && !rows[j].is_tab
                && !rows[j].is_directory implies (#[trigger] rows[i]).ws_idx != (
        #[trigger] rows[j]).ws_idx by {
            assert(entries[i].is_directory == entries[j].is_directory);
        }
    }
}

/// Cycling goes round the rows of workspaces in every mode, and from a tab as from the row of its
/// workspace: by `delta` from number `k` to number `k + delta`, modulo how many there are. Going
/// back by `delta`, or round once, leads to the row of the workspace that was selected.
pub proof fn lemma_cycle(s: AppModel, runtimes: RegistryModel, delta: int, k: int)
    requires
        s.countable(),
        s.workspaces.len() <= usize::MAX,
        s.switcher.candidates.len() <= usize::MAX,
        cycles_from(s.switcher_rows(runtimes), s.switcher.selected, k),
    ensures
        ({
            let rows = s.switcher_rows(runtimes);
            let positions = workspace_positions(rows, rows.len());
            let n = positions.len() as int;
            let t = s.cycled_selection(runtimes, delta);
            let selected = s.switcher.selected;
            &&& t.switcher_rows(runtimes) == rows
            &&& t.switcher.selected == positions[(k + delta) % n]
            &&& t.switcher.selected < rows.len()
            &&& !rows[t.switcher.selected as int].is_tab
            &&& !rows[t.switcher.selected as int].is_directory
            &&& t.cycled_selection(runtimes, -delta).switcher.selected == positions[k]
            &&& s.cycled_selection(runtimes, n).switcher.selected == positions[k]
            &&& !rows[selected as int].is_tab && !rows[selected as int].is_directory
                ==> positions[k] == selected
        }),
{
    let rows = s.switcher_rows(runtimes);
    let n = workspace_positions(rows, rows.len()).len() as int;
    assert(rows.len() <= usize::MAX) by {
        reveal(AppModel::countable);
        lemma_switcher_rows_len(s, runtimes);
    }
    lemma_rows_indexed(s, runtimes);
    lemma_cycled_row(rows, s.switcher.selected, delta, k);
    reveal(AppModel::cycled_selection);
    lemma_settled(s.with_selected(cycled_row(rows, s.switcher.selected, n)), runtimes);
    let a = s.with_selected(cycled_row(rows, s.switcher.selected, delta));
    lemma_settled(a, runtimes);
    let t = a.settled(runtimes);
    lemma_rows_depend(s, t, runtimes);
    lemma_settled(t.with_selected(cycled_row(rows, t.switcher.selected, -delta)), runtimes);
}

proof fn lemma_quick_rows_prefix(
    s: AppModel,
    runtimes: RegistryModel,
    order: Seq<usize>,
    m: nat,
    n: nat,
)
    requires
        m <= n,
    ensures
        ({
            let front = s.quick_rows(runtimes, order, m);
            let rows = s.quick_rows(runtimes, order, n);
            &&& front.len() <= rows.len()
            &&& forall|r: int| 0 <= r < front.len() ==> #[trigger] rows[r] == front[r]
        }),
    decreases n,
{
    if m < n {
        lemma_quick_rows_prefix(s, runtimes, order, m, (n - 1) as nat);
        let before = s.quick_rows(runtimes, order, (n - 1) as nat);
        let front = s.quick_rows(runtimes, order, m);
        let rows = s.quick_rows(runtimes, order, n);
        assert forall|r: int| 0 <= r < front.len() implies #[trigger] rows[r] == front[r] by {
            assert(rows[r] == before[r]);
        }
    }
}

proof fn lemma_quick_rows_of_others(
    s: AppModel,
    expanded: Set<Seq<char>>,
    id: Seq<char>,
    runtimes: RegistryModel,
    order: Seq<usize>,
    n: nat,
)
    requires
        n <= order.len(),
        forall|x: Seq<char>|
            x != id ==> (#[trigger] expanded.contains(x) <==> s.switcher.expanded.contains(x)),
        forall|k: int| 0 <= k < n ==> s.workspaces[#[trigger] order[k] as int].id != id,
    ensures
        s.with_expanded(expanded).quick_rows(runtimes, order, n) == s.quick_rows(
            runtimes,
            order,
            n,
        ),
    decreases n,
{
    if n > 0 {
        let i = order[n - 1] as int;
        let e = s.with_expanded(expanded);
        lemma_quick_rows_of_others(s, expanded, id, runtimes, order, (n - 1) as nat);
        assert(e.is_grouped_child(i) == s.is_grouped_child(i));
        assert(e.tab_rows(i) =~= s.tab_rows(i));
        assert(expanded.contains(s.workspaces[i].id) <==> s.switcher.expanded.contains(
            s.workspaces[i].id,
        ));
    }
}

/// The rows of an expanded workspace: its own, and below it those of its tabs.
proof fn lemma_rows_expanded(s: AppModel, runtimes: RegistryModel, w: usize, i: usize)
    requires
        s.workspaces.len() <= usize::MAX,
        s.switcher.mode == WorkspaceSwitcherMode::QuickSwitch,
        i < s.switcher_rows(runtimes).len(),
        s.switcher_rows(runtimes)[i as int].ws_idx == w,
        !s.switcher_rows(runtimes)[i as int].is_tab,
        w < s.workspaces.len(),
        forall|j: int|
            0 <= j < s.workspaces.len() && j != w ==> (#[trigger] s.workspaces[j]).id
                != s.workspaces[w as int].id,
    ensures
        ({
            let id = s.workspaces[w as int].id;
            let tabs = s.workspaces[w as int].tabs.len();
            let rows = s.with_expanded(s.switcher.expanded.insert(id)).switcher_rows(runtimes);
            &&& i + tabs < rows.len()
            &&& forall|r: int| i <= r <= i + tabs ==> (#[trigger] rows[r]).ws_idx == w
        }),
{
    reveal(AppModel::switcher_rows);
    let order = s.mru_indices();
    let id = s.workspaces[w as int].id;
    let e = s.with_expanded(s.switcher.expanded.insert(id));
    assert(e.mru_indices() == order);
    lemma_mru_indices(s);
    assert(order.contains(w));
    let at = choose|k: int| 0 <= k < order.len() && order[k] == w;
    let n = at as nat;
    assert forall|k: int| 0 <= k < n implies s.workspaces[#[trigger] order[k] as int].id != id by {
        assert(order[k] != order[at]);
        assert(order[k] < s.workspaces.len());
    }
    lemma_quick_rows_of_others(s, e.switcher.expanded, id, runtimes, order, n);
    lemma_quick_rows_workspaces(s, runtimes, order, order.len());
    let rows = s.switcher_rows(runtimes);
    let front = s.quick_rows(runtimes, order, n);
    let with_w = s.quick_rows(runtimes, order, n + 1);
    lemma_quick_rows_prefix(s, runtimes, order, n + 1, order.len());
    let p = front.len() as int;
    assert(with_w[p].ws_idx == w && !with_w[p].is_tab && !with_w[p].is_directory);
    assert(rows[p] == with_w[p]);
    assert(p == i) by {
        if p < i {
            assert(rows[p].ws_idx != rows[i as int].ws_idx);
        } else if i < p {
            assert(rows[i as int].ws_idx != rows[p].ws_idx);
        }
    }
    let opened = e.quick_rows(runtimes, order, n + 1);
    let all = e.switcher_rows(runtimes);
    lemma_quick_rows_prefix(e, runtimes, order, n + 1, order.len());
    let tabs = s.workspaces[w as int].tabs.len();
    assert(opened.len() == p + 1 + tabs);
    assert forall|r: int| i <= r <= i + tabs implies (#[trigger] all[r]).ws_idx == w by {
        assert(all[r] == opened[r]);
        if r > i {
            assert(opened[r] == e.tab_rows(w as int)[r - i - 1]);
        }
    }
}

/// The row of a workspace is the one that is found for it.
proof fn lemma_own_row(s: AppModel, runtimes: RegistryModel, w: usize, i: usize)
    requires
        s.workspaces.len() <= usize::MAX,
        s.switcher.mode == WorkspaceSwitcherMode::QuickSwitch,
        i < s.switcher_rows(runtimes).len(),
        s.switcher_rows(runtimes)[i as int].ws_idx == w,
        !s.switcher_rows(runtimes)[i as int].is_tab,
    ensures
        s.row_of_workspace(runtimes, w) == i,
        !s.switcher_rows(runtimes)[i as int].is_directory,
{
    let rows = s.switcher_rows(runtimes);
    assert(one_row_each(rows) && forall|r: int|
        0 <= r < rows.len() ==> !(#[trigger] rows[r]).is_directory) by {
        reveal(AppModel::switcher_rows);
        lemma_mru_indices(s);
        lemma_quick_rows_workspaces(s, runtimes, s.mru_indices(), s.mru_indices().len());
    }
    let p = |row: RowModel| row.ws_idx == w && !row.is_tab;
    lemma_row_position(rows, p, 0);
    assert(p(rows[i as int]));
    let first = row_position(rows, p, 0)->0;
    if first < i {
        assert(rows[first].ws_idx != rows[i as int].ws_idx);
    }
}

/// Collapsing workspace `w` leads to the state `s` before it was expanded, with its row selected.
proof fn lemma_collapse_to(s: AppModel, m: AppModel, runtimes: RegistryModel, w: usize, i: usize)
    requires
        s.workspaces.len() <= usize::MAX,
        s.switcher.mode == WorkspaceSwitcherMode::QuickSwitch,
        i < s.switcher_rows(runtimes).len(),
        s.switcher_rows(runtimes)[i as int].ws_idx == w,
        !s.switcher_rows(runtimes)[i as int].is_tab,
        w < s.workspaces.len(),
        m.ws_idx_at_selection(runtimes) == Some(w),
        lists_alike(
            s,
            m.with_expanded(m.switcher.expanded.remove(s.workspaces[w as int].id)),
        ),
    ensures
        lists_alike(s, m.collapsed_selection(runtimes)),
        m.collapsed_selection(runtimes).switcher_rows(runtimes) == s.switcher_rows(runtimes),
        m.collapsed_selection(runtimes).switcher.selected == i,
{
    let t = m.collapsed_selection(runtimes);
    lemma_collapse(m, runtimes, w);
    assert(lists_alike(s, t));
    lemma_rows_depend(s, t, runtimes);
    lemma_own_row(t, runtimes, w, i);
}

/// The state with the selected workspace expanded and a row below it selected.
proof fn lemma_expand_then_move(s: AppModel, runtimes: RegistryModel, w: usize, down: int)
    requires
        s.countable(),
        s.workspaces.len() <= usize::MAX,
        s.switcher.mode == WorkspaceSwitcherMode::QuickSwitch,
        s.switcher.selected < s.switcher_rows(runtimes).len(),
        s.switcher_rows(runtimes)[s.switcher.selected as int].ws_idx == w,
        !s.switcher_rows(runtimes)[s.switcher.selected as int].is_tab,
        w < s.workspaces.len(),
        forall|j: int|
            0 <= j < s.workspaces.len() && j != w ==> (#[trigger] s.workspaces[j]).id
                != s.workspaces[w as int].id,
        0 <= down <= s.workspaces[w as int].tabs.len(),
    ensures
        ({
            let id = s.workspaces[w as int].id;
            let m = s.expanded_selection(runtimes).moved_selection(runtimes, down);
            &&& m.switcher.selected == s.switcher.selected + down
            &&& lists_alike(s.with_expanded(s.switcher.expanded.insert(id)), m)
            &&& m.ws_idx_at_selection(runtimes) == Some(w)
        }),
{
    let i = s.switcher.selected;
    let id = s.workspaces[w as int].id;
    let opened = s.with_expanded(s.switcher.expanded.insert(id));
    lemma_own_row(s, runtimes, w, i);
    assert(opened.switcher_rows(runtimes).len() <= usize::MAX) by {
        crate::navigation::lemma_limits_kept(s, opened);
        reveal(AppModel::countable);
        lemma_switcher_rows_len(opened, runtimes);
    }
    lemma_rows_expanded(s, runtimes, w, i);
    assert(s.selected_workspace(runtimes) == Some(w)) by {
        reveal(AppModel::selected_workspace);
    }
    lemma_expand(s, runtimes, w);
    let e = s.expanded_selection(runtimes);
    lemma_rows_depend(opened, e, runtimes);
    lemma_moved(e, runtimes, down);
}

/// Expanding the selected workspace, moving down among its tabs and collapsing it leads back: the
/// same workspaces are expanded, the list is the same, and the row of the workspace is selected.
/// Collapsing once more changes none of this. No other workspace has the id of this one.
pub proof fn lemma_expand_then_collapse(s: AppModel, runtimes: RegistryModel, w: usize, down: int)
    requires
        s.countable(),
        s.workspaces.len() <= usize::MAX,
        s.switcher.mode == WorkspaceSwitcherMode::QuickSwitch,
        s.switcher.selected < s.switcher_rows(runtimes).len(),
        s.switcher_rows(runtimes)[s.switcher.selected as int].ws_idx == w,
        !s.switcher_rows(runtimes)[s.switcher.selected as int].is_tab,
        w < s.workspaces.len(),
        !s.switcher.expanded.contains(s.workspaces[w as int].id),
        forall|j: int|
            0 <= j < s.workspaces.len() && j != w ==> (#[trigger] s.workspaces[j]).id
                != s.workspaces[w as int].id,
        0 <= down <= s.workspaces[w as int].tabs.len(),
    ensures
        ({
            let moved = s.expanded_selection(runtimes).moved_selection(runtimes, down);
            let t = moved.collapsed_selection(runtimes);
            let u = t.collapsed_selection(runtimes);
            &&& moved.switcher.selected == s.switcher.selected + down
            &&& lists_alike(s, t)
            &&& t.switcher_rows(runtimes) == s.switcher_rows(runtimes)
            &&& t.switcher.selected == s.switcher.selected
            &&& lists_alike(s, u)
            &&& u.switcher_rows(runtimes) == s.switcher_rows(runtimes)
            &&& u.switcher.selected == s.switcher.selected
        }),
{
    let i = s.switcher.selected;
    let id = s.workspaces[w as int].id;
    let m = s.expanded_selection(runtimes).moved_selection(runtimes, down);
    lemma_expand_then_move(s, runtimes, w, down);
    assert(m.switcher.expanded.remove(id) =~= s.switcher.expanded);
    lemma_collapse_to(s, m, runtimes, w, i);
    let t = m.collapsed_selection(runtimes);
    assert(t.switcher.expanded.remove(id) =~= s.switcher.expanded);
    lemma_collapse_to(s, t, runtimes, w, i);
}

// ---------------------------------------------------------------------------
// Order
// ---------------------------------------------------------------------------

/// The state that switching to a workspace leaves: it is the active and most recently used one,
/// its id is recorded once, and the recency order starts with it.
pub proof fn lemma_switched(s: AppModel, ws_idx: usize)
    requires
        s.workspaces.len() <= usize::MAX,
        ws_idx < s.workspaces.len(),
    ensures
        ({
            let t = s.switched(ws_idx);
            let id = s.workspaces[ws_idx as int].id;
            &&& t.active == Some(ws_idx)
            &&& t.mru[0] == id
            &&& forall|k: int| 0 < k < t.mru.len() ==> #[trigger] t.mru[k] != id
            &&& t.mru_indices().len() > 0
            &&& t.mru_indices()[0] == ws_idx
        }),
{
    let id = s.workspaces[ws_idx as int].id;
    lemma_without_id(s.mru, id);
    lemma_mru_indices(s.switched(ws_idx));
    let t = s.switched(ws_idx);
    assert forall|k: int| 0 < k < t.mru.len() implies #[trigger] t.mru[k] != id by {
        assert(t.mru[k] == crate::navigation::without_id(s.mru, id)[k - 1]);
    }
}

proof fn lemma_without_id(mru: Seq<Seq<char>>, id: Seq<char>)
    ensures
        forall|k: int|
            0 <= k < crate::navigation::without_id(mru, id).len() ==> (
            #[trigger] crate::navigation::without_id(mru, id)[k]) != id,
    decreases mru.len(),
{
    if mru.len() > 0 {
        lemma_without_id(mru.drop_last(), id);
        let before = crate::navigation::without_id(mru.drop_last(), id);
        let after = crate::navigation::without_id(mru, id);
        assert forall|k: int| 0 <= k < after.len() implies #[trigger] after[k] != id by {
            if k < before.len() {
                assert(after[k] == before[k]);
            }
        }
    }
}

proof fn lemma_collapsed_quick_rows(
    s: AppModel,
    runtimes: RegistryModel,
    order: Seq<usize>,
    n: nat,
)
    requires
        n <= order.len(),
        s.switcher.expanded == Set::<Seq<char>>::empty(),
    ensures
        s.quick_rows(runtimes, order, n).len() == n,
        forall|k: int|
            0 <= k < n ==> (#[trigger] s.quick_rows(runtimes, order, n)[k]) == s.workspace_row(
                order[k] as int,
                s.label(runtimes, order[k] as int),
                false,
            ),
    decreases n,
{
    if n > 0 {
        lemma_collapsed_quick_rows(s, runtimes, order, (n - 1) as nat);
    }
}

/// The switcher opens with one row for each workspace, the most recently used first, and with the
/// workspace selected that was used before the active one.
pub proof fn lemma_opened(s: AppModel, runtimes: RegistryModel)
    requires
        s.workspaces.len() <= usize::MAX,
        s.workspaces.len() >= 2,
        s.active is Some,
        s.active->0 < s.workspaces.len(),
    ensures
        ({
            let t = s.switcher_opened(runtimes);
            let rows = t.switcher_rows(runtimes);
            let order = s.mru_indices();
            &&& t.switcher.active
            &&& t.switcher.mode == WorkspaceSwitcherMode::QuickSwitch
            &&& rows.len() == order.len()
            &&& forall|k: int| 0 <= k < rows.len() ==> (#[trigger] rows[k]).ws_idx == order[k]
            &&& rows.len() >= 2
            &&& rows[0].ws_idx == s.active->0
            &&& t.switcher.selected == 1
        }),
{
    reveal(AppModel::switcher_opened);
    let shown = s.switcher_shown();
    let order = s.mru_indices();
    assert(shown.mru_indices() == order);
    lemma_mru_indices(s);
    let rows = shown.switcher_rows(runtimes);
    assert(rows == shown.quick_rows(runtimes, order, order.len())) by {
        reveal(AppModel::switcher_rows);
    }
    lemma_collapsed_quick_rows(shown, runtimes, order, order.len());
    assert(order.len() >= 2) by {
        assert(order.contains(0usize));
        assert(order.contains(1usize));
        let a = choose|k: int| 0 <= k < order.len() && order[k] == 0usize;
        let b = choose|k: int| 0 <= k < order.len() && order[k] == 1usize;
        assert(order[a] != order[b]);
    }
    let active = s.active->0;
    assert(order[0] != order[1]);
    let p = |row: RowModel| row.ws_idx != active && !row.is_tab;
    assert(!p(rows[0]));
    assert(p(rows[1]));
    reveal_with_fuel(row_position, 3);
    assert(row_position(rows, p, 0) == Some(1int));
    assert(shown.opening_row(runtimes) == 1);
    let m = shown.with_selected(1);
    lemma_settled(m, runtimes);
    lemma_rows_depend(shown, m.settled(runtimes), runtimes);
}

/// The results of a search are in order: no result stands behind a worse one. So a better match
/// comes first whether it is a workspace or a directory, and of equal matches the workspaces come
/// before the directories, the more recent workspace and the directory with the higher score
/// first. There are never more rows than the limit.
pub proof fn lemma_search_order(
    s: AppModel,
    runtimes: RegistryModel,
    query: Seq<char>,
    order: Seq<usize>,
)
    ensures
        is_sorted::<SearchEntry>(s.search_entries(runtimes, query, order)),
        s.search_rows(runtimes, query, order).len() <= SEARCH_RESULTS_LIMIT,
{
    lemma_sorted_permutation::<SearchEntry>(
        s.workspace_entries(runtimes, order, query, order.len()) + s.directory_entries(
            order,
            query,
            s.switcher.candidates.len(),
        ),
    );
}

/// Whether a result is a directory that matches and that no workspace has open.
pub open spec fn is_unopened_match(
    s: AppModel,
    query: Seq<char>,
    order: Seq<usize>,
    e: SearchEntry,
) -> bool {
    &&& e.source < s.switcher.candidates.len()
    &&& s.open_workspace(
        order,
        s.switcher.candidates[e.source as int].canonical_path,
        0,
    ) is None
    &&& s.switcher.candidates[e.source as int].match_rank(query) == Some(e.rank)
}

proof fn lemma_directory_entries(s: AppModel, query: Seq<char>, order: Seq<usize>, n: nat)
    requires
        n <= s.switcher.candidates.len() <= usize::MAX,
    ensures
        forall|k: int|
            0 <= k < s.directory_entries(order, query, n).len() ==> {
                &&& (#[trigger] s.directory_entries(order, query, n)[k]).is_directory
                &&& is_unopened_match(s, query, order, s.directory_entries(order, query, n)[k])
            },
    decreases n,
{
    if n > 0 {
        lemma_directory_entries(s, query, order, (n - 1) as nat);
        let before = s.directory_entries(order, query, (n - 1) as nat);
        let after = s.directory_entries(order, query, n);
        assert forall|k: int| 0 <= k < after.len() implies {
            &&& (#[trigger] after[k]).is_directory
            &&& is_unopened_match(s, query, order, after[k])
        } by {
            if k < before.len() {
                assert(after[k] == before[k]);
            }
        }
    }
}

proof fn lemma_workspace_entries(
    s: AppModel,
    runtimes: RegistryModel,
    query: Seq<char>,
    order: Seq<usize>,
    n: nat,
)
    ensures
        forall|k: int|
            0 <= k < s.workspace_entries(runtimes, order, query, n).len() ==> {
                let e = #[trigger] s.workspace_entries(runtimes, order, query, n)[k];
                &&& !e.is_directory
                &&& e.source < s.workspaces.len()
                &&& s.workspace_rank(runtimes, order, query, e.source) == Some(e.rank)
            },
    decreases n,
{
    if n > 0 {
        lemma_workspace_entries(s, runtimes, query, order, (n - 1) as nat);
    }
}

/// A directory that a workspace has open is never a result of its own: every directory among the
/// results matches the query and is open nowhere, and every workspace among them matches.
pub proof fn lemma_search_results(
    s: AppModel,
    runtimes: RegistryModel,
    query: Seq<char>,
    order: Seq<usize>,
    k: int,
)
    requires
        s.switcher.candidates.len() <= usize::MAX,
        0 <= k < s.search_entries(runtimes, query, order).len(),
    ensures
        ({
            let e = s.search_entries(runtimes, query, order)[k];
            if e.is_directory {
                is_unopened_match(s, query, order, e)
            } else {
                e.source < s.workspaces.len() && s.workspace_rank(
                    runtimes,
                    order,
                    query,
                    e.source,
                ) == Some(e.rank)
            }
        }),
{
    broadcast use vstd::seq_lib::group_to_multiset_ensures;

    let a = s.workspace_entries(runtimes, order, query, order.len());
    let b = s.directory_entries(order, query, s.switcher.candidates.len());
    let entries = s.search_entries(runtimes, query, order);
    lemma_sorted_permutation::<SearchEntry>(a + b);
    lemma_workspace_entries(s, runtimes, query, order, order.len());
    lemma_directory_entries(s, query, order, s.switcher.candidates.len());
    let e = entries[k];
    assert(entries.contains(e));
    assert(entries.to_multiset().count(e) > 0);
    assert((a + b).contains(e));
    let j = choose|j: int| 0 <= j < (a + b).len() && (a + b)[j] == e;
    if j < a.len() {
        assert(a[j] == e);
    } else {
        assert(b[j - a.len()] == e);
    }
}

/// Whether `entries` holds the result for workspace or candidate `source`.
pub open spec fn has_result(entries: Seq<SearchEntry>, is_directory: bool, source: int) -> bool {
    exists|k: int|
        0 <= k < entries.len() && (#[trigger] entries[k]).is_directory == is_directory
            && entries[k].source == source
}

proof fn lemma_workspace_result(
    s: AppModel,
    runtimes: RegistryModel,
    query: Seq<char>,
    order: Seq<usize>,
    n: nat,
    j: int,
)
    requires
        0 <= j < n <= order.len(),
        order[j] < s.workspaces.len(),
        s.workspace_rank(runtimes, order, query, order[j]) is Some,
    ensures
        has_result(s.workspace_entries(runtimes, order, query, n), false, order[j] as int),
    decreases n,
{
    let entries = s.workspace_entries(runtimes, order, query, n);
    let before = s.workspace_entries(runtimes, order, query, (n - 1) as nat);
    if j == n - 1 {
        assert(entries[entries.len() - 1].source == order[j]);
    } else {
        lemma_workspace_result(s, runtimes, query, order, (n - 1) as nat, j);
        let k = choose|k: int|
            0 <= k < before.len() && (#[trigger] before[k]).is_directory == false
                && before[k].source == order[j];
        assert(entries[k] == before[k]);
    }
}

proof fn lemma_directory_result(
    s: AppModel,
    query: Seq<char>,
    order: Seq<usize>,
    n: nat,
    c: int,
)
    requires
        0 <= c < n <= s.switcher.candidates.len() <= usize::MAX,
        s.open_workspace(order, s.switcher.candidates[c].canonical_path, 0) is None,
        s.switcher.candidates[c].match_rank(query) is Some,
    ensures
        has_result(s.directory_entries(order, query, n), true, c),
    decreases n,
{
    let entries = s.directory_entries(order, query, n);
    let before = s.directory_entries(order, query, (n - 1) as nat);
    if c == n - 1 {
        assert(entries[entries.len() - 1].source == c);
    } else {
        lemma_directory_result(s, query, order, (n - 1) as nat, c);
        let k = choose|k: int|
            0 <= k < before.len() && (#[trigger] before[k]).is_directory == true
                && before[k].source == c;
        assert(entries[k] == before[k]);
    }
}

proof fn lemma_result_kept(all: Seq<SearchEntry>, is_directory: bool, source: int)
    requires
        has_result(all, is_directory, source),
    ensures
        has_result(stably_sorted::<SearchEntry>(all), is_directory, source),
{
    broadcast use vstd::seq_lib::group_to_multiset_ensures;

    let sorted = stably_sorted::<SearchEntry>(all);
    lemma_sorted_permutation::<SearchEntry>(all);
    let j = choose|j: int|
        0 <= j < all.len() && (#[trigger] all[j]).is_directory == is_directory && all[j].source
            == source;
    let e = all[j];
    assert(all.contains(e));
    assert(sorted.to_multiset().count(e) > 0);
    assert(sorted.contains(e));
    let k = choose|k: int| 0 <= k < sorted.len() && sorted[k] == e;
    assert(sorted[k].source == source);
}

/// Nothing that matches is missing: every workspace of `order` that matches has a result, and so
/// has every directory that matches and that no workspace has open.
pub proof fn lemma_search_complete(
    s: AppModel,
    runtimes: RegistryModel,
    query: Seq<char>,
    order: Seq<usize>,
)
    requires
        s.switcher.candidates.len() <= usize::MAX,
    ensures
        forall|j: int|
            0 <= j < order.len() && (#[trigger] order[j]) < s.workspaces.len()
                && s.workspace_rank(runtimes, order, query, order[j]) is Some ==> has_result(
                s.search_entries(runtimes, query, order),
                false,
                order[j] as int,
            ),
        forall|c: int|
            0 <= c < s.switcher.candidates.len() && s.open_workspace(
                order,
                (#[trigger] s.switcher.candidates[c]).canonical_path,
                0,
            ) is None && s.switcher.candidates[c].match_rank(query) is Some ==> has_result(
                s.search_entries(runtimes, query, order),
                true,
                c,
            ),
{
    let a = s.workspace_entries(runtimes, order, query, order.len());
    let b = s.directory_entries(order, query, s.switcher.candidates.len());
    assert forall|j: int|
        0 <= j < order.len() && (#[trigger] order[j]) < s.workspaces.len() && s.workspace_rank(
            runtimes,
            order,
            query,
            order[j],
        ) is Some implies has_result(
        s.search_entries(runtimes, query, order),
        false,
        order[j] as int,
    ) by {
        lemma_workspace_result(s, runtimes, query, order, order.len(), j);
        let k = choose|k: int|
            0 <= k < a.len() && (#[trigger] a[k]).is_directory == false && a[k].source == order[j];
        assert((a + b)[k] == a[k]);
        lemma_result_kept(a + b, false, order[j] as int);
    }
    assert forall|c: int|
        0 <= c < s.switcher.candidates.len() && s.open_workspace(
            order,
            (#[trigger] s.switcher.candidates[c]).canonical_path,
            0,
        ) is None && s.switcher.candidates[c].match_rank(query) is Some implies has_result(
        s.search_entries(runtimes, query, order),
        true,
        c,
    ) by {
        lemma_directory_result(s, query, order, s.switcher.candidates.len(), c);
        let k = choose|k: int|
            0 <= k < b.len() && (#[trigger] b[k]).is_directory == true && b[k].source == c;
        assert((a + b)[a.len() + k] == b[k]);
        lemma_result_kept(a + b, true, c);
    }
}

// ---------------------------------------------------------------------------
// The mouse
// ---------------------------------------------------------------------------

/// The mouse hits the row that is drawn under it: every cell of the rectangle in which a row is
/// drawn belongs to that row.
pub proof fn lemma_drawn_row_is_hit(
    s: AppModel,
    runtimes: RegistryModel,
    index: int,
    col: u16,
    row: u16,
)
    requires
        s.switcher.scroll < s.switcher_rows(runtimes).len(),
        s.row_layout(runtimes).shows(index, s.switcher.scroll as int),
        s.switcher_body().y + s.switcher_body().height <= u16::MAX,
        s.switcher_body().x + s.switcher_body().width <= u16::MAX,
        crate::geometry::covers(
            crate::switcher_render::row_rect(
                s.switcher_body(),
                s.row_layout(runtimes),
                s.switcher.scroll as int,
                index,
            ),
            col as int,
            row as int,
        ),
    ensures
        s.row_at(runtimes, col, row) == Some(index),
{
    reveal(AppModel::row_at);
    reveal(crate::switcher_render::row_rect);
    reveal(LayoutModel::offset_within_window);
    let layout = s.row_layout(runtimes);
    let body = s.switcher_body();
    let scroll = s.switcher.scroll as int;
    lemma_layout_wf(s.switcher_rows(runtimes), body.height as nat);
    crate::row_layout::lemma_visible_count(layout, scroll);
    let end = scroll + layout.visible_count_at(scroll);
    crate::row_layout::lemma_prefix_monotonic(layout, scroll, index);
    crate::row_layout::lemma_prefix_monotonic(layout, index + 1, end);
    let offset = layout.offset(index) - layout.offset(scroll);
    let line = row - body.y - offset;
    lemma_row_at_physical_hits(layout, index, scroll, line);
}

} // verus!
