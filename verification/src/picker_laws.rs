//! What holds of the workspace picker as a whole.

use vstd::prelude::*;
use crate::geometry::{clipped_rect, covers};
use crate::navigation::{distinct_below, lemma_mru_indices};
use crate::picker::{
    picker_cycled_row, picker_position, picker_position_of, picker_positions,
};
use crate::picker_rows::{PickerRowModel, WorkspacePickerTarget};
use crate::sorting::{is_sorted, lemma_sorted_permutation, stably_sorted};
use crate::state::{AppModel, Mode, WorkspacePickerMode};
use crate::switcher_laws::{lemma_sorted_sources_once, sources_once};
use crate::switcher_model::clamped;
use crate::switcher_rows::SearchEntry;
use crate::terminal::RegistryModel;
use crate::text::trim;

verus! {

// ---------------------------------------------------------------------------
// What the rows depend on
// ---------------------------------------------------------------------------

/// Whether two states agree on everything that the rows of the picker depend on.
pub open spec fn picks_alike(a: AppModel, b: AppModel) -> bool {
    &&& a.workspaces == b.workspaces
    &&& a.mru == b.mru
    &&& a.active == b.active
    &&& a.picker.mode == b.picker.mode
    &&& a.picker.query == b.picker.query
    &&& a.picker.expanded == b.picker.expanded
}

proof fn lemma_same_label(a: AppModel, b: AppModel, runtimes: RegistryModel, i: int)
    requires
        picks_alike(a, b),
    ensures
        a.label(runtimes, i) == b.label(runtimes, i),
{
    assert(a.is_grouped_child(i) == b.is_grouped_child(i));
}

proof fn lemma_same_listed(
    a: AppModel,
    b: AppModel,
    runtimes: RegistryModel,
    order: Seq<usize>,
    n: nat,
)
    requires
        picks_alike(a, b),
    ensures
        a.picker_listed(runtimes, order, n) == b.picker_listed(runtimes, order, n),
    decreases n,
{
    if n > 0 {
        let i = order[n - 1] as int;
        lemma_same_listed(a, b, runtimes, order, (n - 1) as nat);
        lemma_same_label(a, b, runtimes, i);
        assert(a.picker_tab_rows(i) =~= b.picker_tab_rows(i));
    }
}

proof fn lemma_same_entries(
    a: AppModel,
    b: AppModel,
    runtimes: RegistryModel,
    order: Seq<usize>,
    query: Seq<char>,
    n: nat,
)
    requires
        picks_alike(a, b),
    ensures
        a.picker_entries(runtimes, order, query, n) == b.picker_entries(runtimes, order, query, n),
    decreases n,
{
    if n > 0 {
        lemma_same_entries(a, b, runtimes, order, query, (n - 1) as nat);
        lemma_same_label(a, b, runtimes, order[n - 1] as int);
    }
}

/// The rows of the picker depend on the workspaces, their recency, the mode, the query and what is
/// expanded, and on nothing else.
pub proof fn lemma_picker_rows_depend(a: AppModel, b: AppModel, runtimes: RegistryModel)
    requires
        picks_alike(a, b),
    ensures
        a.picker_rows(runtimes) == b.picker_rows(runtimes),
{
    reveal(AppModel::picker_rows);
    let order = a.picker_order();
    let query = trim(a.picker.query);
    assert(b.picker_order() =~= order);
    lemma_same_listed(a, b, runtimes, order, order.len());
    lemma_same_entries(a, b, runtimes, order, query, order.len());
    let entries = stably_sorted::<SearchEntry>(
        a.picker_entries(runtimes, order, query, order.len()),
    );
    assert(a.picker_found(runtimes, order, query) =~= b.picker_found(runtimes, order, query)) by {
        assert forall|k: int| 0 <= k < entries.len() implies #[trigger] a.picker_found(
            runtimes,
            order,
            query,
        )[k] == b.picker_found(runtimes, order, query)[k] by {
            lemma_same_label(a, b, runtimes, entries[k].source as int);
        }
    }
}

// ---------------------------------------------------------------------------
// Selection
// ---------------------------------------------------------------------------

/// How far the list is scrolled to show the selected row.
proof fn lemma_picker_scroll(s: AppModel, runtimes: RegistryModel)
    requires
        s.picker.selected < s.picker_rows(runtimes).len() <= usize::MAX,
    ensures
        ({
            let scroll = s.picker_scroll_to_show(runtimes);
            let height = s.picker_body().height as int;
            let row = s.picker.selected as int;
            &&& 0 <= scroll <= usize::MAX
            &&& height > 0 ==> scroll <= row < scroll + height
            &&& height == 0 ==> scroll == 0
            &&& height > 0 && s.picker.scroll <= row < s.picker.scroll + height && s.picker.scroll
                + height <= s.picker_rows(runtimes).len() ==> scroll == s.picker.scroll
        }),
{
    reveal(AppModel::picker_scroll_to_show);
    reveal(AppModel::picker_max_scroll);
}

/// Showing the preview of the selected row changes nothing else.
proof fn lemma_picker_previewed(s: AppModel, runtimes: RegistryModel)
    requires
        s.picker.selected < s.picker_rows(runtimes).len(),
    ensures
        ({
            let t = s.picker_previewed(runtimes);
            &&& picks_alike(s, t)
            &&& t.view == s.view
            &&& t.picker.selected == s.picker.selected
            &&& t.picker.scroll == s.picker.scroll
            &&& t.picker.preview_ws_idx == Some(
                s.picker_rows(runtimes)[s.picker.selected as int].ws_idx,
            )
        }),
{
    reveal(AppModel::picker_previewed);
    reveal(AppModel::picked_target);
    reveal(AppModel::picked_workspace);
}

/// Picking a row selects it and scrolls to it, as little as possible: where the list has a line at
/// all the row is in the window, and a row that was there already does not move.
pub proof fn lemma_picked(s: AppModel, runtimes: RegistryModel, row: usize)
    requires
        row < s.picker_rows(runtimes).len() <= usize::MAX,
    ensures
        ({
            let t = s.picked(runtimes, row);
            let height = s.picker_body().height as int;
            let count = s.picker_rows(runtimes).len() as int;
            &&& t.picker_rows(runtimes) == s.picker_rows(runtimes)
            &&& t.picker.selected == row
            &&& t.picker_body() == s.picker_body()
            &&& height > 0 ==> t.picker.scroll <= row < t.picker.scroll + height
            &&& height == 0 ==> t.picker.scroll == 0
            &&& height > 0 && s.picker.scroll <= row < s.picker.scroll + height
                && s.picker.scroll + height <= count ==> t.picker.scroll == s.picker.scroll
            &&& t.picker.preview_ws_idx == Some(s.picker_rows(runtimes)[row as int].ws_idx)
            &&& t.picker.expanded == s.picker.expanded
            &&& picks_alike(s, t)
            &&& t.view == s.view
        }),
{
    let m = s.with_picked(row);
    let scrolled = m.picker_scrolled(runtimes);
    lemma_picker_rows_depend(s, m, runtimes);
    lemma_picker_scroll(m, runtimes);
    assert(picks_alike(m, scrolled) && scrolled.picker.selected == row && scrolled.view == s.view
        && scrolled.picker.scroll == m.picker_scroll_to_show(runtimes) as usize) by {
        reveal(AppModel::picker_scrolled);
    }
    lemma_picker_rows_depend(m, scrolled, runtimes);
    lemma_picker_previewed(scrolled, runtimes);
    assert(s.picked(runtimes, row) == scrolled.picker_previewed(runtimes)) by {
        reveal(AppModel::picked);
    }
    lemma_picker_rows_depend(s, s.picked(runtimes, row), runtimes);
    assert(m.picker_body() == s.picker_body() && s.picked(runtimes, row).picker_body()
        == s.picker_body()) by {
        reveal(AppModel::picker_body);
    }
}

/// Moving goes to a row of the list, `delta` rows away or as far as the list goes, and shows it
/// wherever the list has a line. It does not change the list, and a move that stays in the list is
/// undone by the opposite one.
pub proof fn lemma_picker_move(s: AppModel, runtimes: RegistryModel, delta: int)
    requires
        s.picker.selected < s.picker_rows(runtimes).len() <= usize::MAX,
    ensures
        ({
            let count = s.picker_rows(runtimes).len();
            let t = s.picker_moved(runtimes, delta);
            &&& t.picker_rows(runtimes) == s.picker_rows(runtimes)
            &&& t.picker.selected == clamped(s.picker.selected + delta, count - 1)
            &&& t.picker.selected < count
            &&& s.picker_body().height > 0 ==> t.picker.scroll <= t.picker.selected
                < t.picker.scroll + s.picker_body().height
            &&& picks_alike(s, t)
            &&& 0 <= s.picker.selected + delta < count ==> t.picker_moved(
                runtimes,
                -delta,
            ).picker.selected == s.picker.selected
        }),
{
    reveal(AppModel::picker_moved);
    let count = s.picker_rows(runtimes).len();
    let row = clamped(s.picker.selected + delta, count - 1) as usize;
    lemma_picked(s, runtimes, row);
    lemma_picked(
        s.picked(runtimes, row),
        runtimes,
        clamped(row - delta, count - 1) as usize,
    );
}

/// Expanding the selected workspace expands it and nothing else.
pub proof fn lemma_picker_expand(s: AppModel, runtimes: RegistryModel, i: usize)
    requires
        s.picked_workspace(runtimes) == Some(i),
        i < s.workspaces.len(),
    ensures
        s.picker_expanded(runtimes).picker.expanded == s.picker.expanded.insert(
            s.workspaces[i as int].id,
        ),
{
    reveal(AppModel::picker_expanded);
    reveal(AppModel::picker_clamped);
    reveal(AppModel::picked);
    reveal(AppModel::picker_scrolled);
    reveal(AppModel::picker_previewed);
}

/// Collapsing the workspace of the selected row hides its tabs and those of no other.
pub proof fn lemma_picker_collapse(s: AppModel, runtimes: RegistryModel, i: usize)
    requires
        s.picked_workspace(runtimes) == Some(i),
        i < s.workspaces.len(),
    ensures
        s.picker_collapsed(runtimes).picker.expanded == s.picker.expanded.remove(
            s.workspaces[i as int].id,
        ),
{
    reveal(AppModel::picker_collapsed);
    reveal(AppModel::picked);
    reveal(AppModel::picker_scrolled);
    reveal(AppModel::picker_previewed);
}

/// Whether every workspace has at most one row of its own.
pub open spec fn picks_each_once(rows: Seq<PickerRowModel>) -> bool {
    forall|i: int, j: int|
        0 <= i < j < rows.len() && !rows[i].is_tab && !rows[j].is_tab ==> (
        #[trigger] rows[i]).ws_idx != (#[trigger] rows[j]).ws_idx
}

proof fn lemma_picker_positions(rows: Seq<PickerRowModel>, n: nat)
    requires
        n <= rows.len() <= usize::MAX,
    ensures
        ({
            let positions = picker_positions(rows, n);
            &&& forall|k: int|
                0 <= k < positions.len() ==> {
                    &&& #[trigger] positions[k] < n
                    &&& !rows[positions[k] as int].is_tab
                }
            &&& forall|j: int, k: int|
                0 <= j < k < positions.len() ==> #[trigger] positions[j] < #[trigger] positions[k]
            &&& forall|r: int|
                0 <= r < n && !(#[trigger] rows[r]).is_tab ==> positions.contains(r as usize)
        }),
    decreases n,
{
    if n > 0 {
        lemma_picker_positions(rows, (n - 1) as nat);
        let before = picker_positions(rows, (n - 1) as nat);
        let positions = picker_positions(rows, n);
        assert forall|r: int| 0 <= r < n && !(#[trigger] rows[r]).is_tab implies positions.contains(
            r as usize,
        ) by {
            if r < n - 1 {
                assert(before.contains(r as usize));
                let k = choose|k: int| 0 <= k < before.len() && before[k] == r as usize;
                assert(positions[k] == r as usize);
            } else {
                assert(positions[positions.len() - 1] == r as usize);
            }
        }
    }
}

proof fn lemma_picker_position_of(
    rows: Seq<PickerRowModel>,
    positions: Seq<usize>,
    k: int,
    from: int,
)
    requires
        picks_each_once(rows),
        rows.len() <= usize::MAX,
        positions == picker_positions(rows, rows.len()),
        0 <= from <= k < positions.len(),
    ensures
        picker_position_of(rows, positions, rows[positions[k] as int].ws_idx, from) == Some(k),
    decreases k - from,
{
    lemma_picker_positions(rows, rows.len());
    if from < k {
        assert(positions[from] < positions[k]);
        assert(rows[positions[from] as int].ws_idx != rows[positions[k] as int].ws_idx);
        lemma_picker_position_of(rows, positions, k, from + 1);
    }
}

/// Whether cycling from row `selected` starts at the workspace row with number `k`: the row of the
/// workspace that the selected row belongs to.
pub open spec fn picker_cycles_from(rows: Seq<PickerRowModel>, selected: usize, k: int) -> bool {
    let positions = picker_positions(rows, rows.len());
    &&& selected < rows.len()
    &&& 0 <= k < positions.len()
    &&& rows[positions[k] as int].ws_idx == rows[selected as int].ws_idx
}

/// Cycling goes round the rows of workspaces: from the one with number `k` by `delta` to the one
/// with number `k + delta`, modulo how many there are. So going back by `delta` leads to where it
/// started, and so does going round once.
pub proof fn lemma_picker_cycled_row(
    rows: Seq<PickerRowModel>,
    selected: usize,
    delta: int,
    k: int,
)
    requires
        rows.len() <= usize::MAX,
        picks_each_once(rows),
        picker_cycles_from(rows, selected, k),
    ensures
        ({
            let positions = picker_positions(rows, rows.len());
            let n = positions.len() as int;
            let next = picker_cycled_row(rows, selected, delta);
            &&& next == positions[(k + delta) % n]
            &&& next < rows.len()
            &&& !rows[next as int].is_tab
            &&& picker_cycled_row(rows, next, -delta) == positions[k]
            &&& picker_cycled_row(rows, selected, n) == positions[k]
            &&& !rows[selected as int].is_tab ==> positions[k] == selected
        }),
{
    let positions = picker_positions(rows, rows.len());
    let n = positions.len() as int;
    lemma_picker_positions(rows, rows.len());
    let d = (k + delta) % n;
    assert(0 <= d < n);
    lemma_picker_position_of(rows, positions, k, 0);
    lemma_picker_position_of(rows, positions, d, 0);
    assert((d + -delta) % n == k) by {
        vstd::arithmetic::div_mod::lemma_add_mod_noop(k + delta, -delta, n);
        vstd::arithmetic::div_mod::lemma_add_mod_noop(d, -delta, n);
        vstd::arithmetic::div_mod::lemma_small_mod(d as nat, n as nat);
        vstd::arithmetic::div_mod::lemma_small_mod(k as nat, n as nat);
    }
    assert((k + n) % n == k) by {
        vstd::arithmetic::div_mod::lemma_mod_add_multiples_vanish(k, n);
        vstd::arithmetic::div_mod::lemma_small_mod(k as nat, n as nat);
    }
    if !rows[selected as int].is_tab {
        let at = positions[k] as int;
        if at < selected {
            assert(rows[at].ws_idx != rows[selected as int].ws_idx);
        } else if selected < at {
            assert(rows[selected as int].ws_idx != rows[at].ws_idx);
        }
    }
}

proof fn lemma_listed_workspaces(
    s: AppModel,
    runtimes: RegistryModel,
    order: Seq<usize>,
    n: nat,
)
    requires
        n <= order.len(),
        distinct_below(order, s.workspaces.len()),
    ensures
        ({
            let rows = s.picker_listed(runtimes, order, n);
            &&& picks_each_once(rows)
            &&& forall|r: int|
                0 <= r < rows.len() ==> order.take(n as int).contains((#[trigger] rows[r]).ws_idx)
        }),
    decreases n,
{
    if n > 0 {
        let m = (n - 1) as nat;
        lemma_listed_workspaces(s, runtimes, order, m);
        let before = s.picker_listed(runtimes, order, m);
        let rows = s.picker_listed(runtimes, order, n);
        let i = order[n - 1];
        assert(i < s.workspaces.len());
        assert forall|r: int| 0 <= r < rows.len() implies {
            &&& order.take(n as int).contains((#[trigger] rows[r]).ws_idx)
            &&& r < before.len() ==> rows[r] == before[r]
            &&& r >= before.len() ==> rows[r].ws_idx == i
            &&& r > before.len() ==> rows[r].is_tab
        } by {
            if r < before.len() {
                assert(rows[r] == before[r]);
                assert(order.take(m as int).contains(before[r].ws_idx));
                let k = choose|k: int|
                    0 <= k < order.take(m as int).len() && order.take(m as int)[k]
                        == before[r].ws_idx;
                assert(order.take(n as int)[k] == before[r].ws_idx);
            } else {
                assert(order.take(n as int)[n - 1] == i);
            }
        }
        assert forall|a: int, b: int|
            0 <= a < b < rows.len() && !rows[a].is_tab && !rows[b].is_tab implies (
        #[trigger] rows[a]).ws_idx != (#[trigger] rows[b]).ws_idx by {
            if b >= before.len() {
                assert(b == before.len());
                assert(order.take(m as int).contains(before[a].ws_idx));
                let k = choose|k: int|
                    0 <= k < order.take(m as int).len() && order.take(m as int)[k]
                        == before[a].ws_idx;
                assert(order[k] == before[a].ws_idx);
                assert(order[k] != order[n - 1]);
            } else {
                assert(before[a].ws_idx != before[b].ws_idx);
            }
        }
    }
}

proof fn lemma_picker_entries_once(
    s: AppModel,
    runtimes: RegistryModel,
    order: Seq<usize>,
    query: Seq<char>,
    n: nat,
)
    requires
        n <= order.len(),
        distinct_below(order, s.workspaces.len()),
    ensures
        ({
            let entries = s.picker_entries(runtimes, order, query, n);
            &&& sources_once(entries)
            &&& forall|k: int|
                0 <= k < entries.len() ==> order.take(n as int).contains(
                    (#[trigger] entries[k]).source,
                )
        }),
    decreases n,
{
    if n > 0 {
        let m = (n - 1) as nat;
        lemma_picker_entries_once(s, runtimes, order, query, m);
        let before = s.picker_entries(runtimes, order, query, m);
        let entries = s.picker_entries(runtimes, order, query, n);
        assert forall|k: int| 0 <= k < before.len() implies order.take(n as int).contains(
            (#[trigger] before[k]).source,
        ) && before[k].source != order[n - 1] by {
            assert(order.take(m as int).contains(before[k].source));
            let j = choose|j: int|
                0 <= j < order.take(m as int).len() && order.take(m as int)[j] == before[k].source;
            assert(order.take(n as int)[j] == before[k].source);
            assert(order[j] != order[n - 1]);
        }
        assert(order.take(n as int)[n - 1] == order[n - 1]);
        assert forall|k: int| 0 <= k < entries.len() implies order.take(n as int).contains(
            (#[trigger] entries[k]).source,
        ) by {
            if k < before.len() {
                assert(entries[k] == before[k]);
            }
        }
        assert forall|i: int, j: int|
            0 <= i < j < entries.len() && (#[trigger] entries[i]).is_directory == (
            #[trigger] entries[j]).is_directory implies entries[i].source != entries[j].source by {
            assert(entries[i] == before[i]);
            if j < before.len() {
                assert(entries[j] == before[j]);
            }
        }
    }
}

proof fn lemma_picker_entries_are_workspaces(
    s: AppModel,
    runtimes: RegistryModel,
    order: Seq<usize>,
    query: Seq<char>,
    n: nat,
)
    ensures
        forall|k: int|
            0 <= k < s.picker_entries(runtimes, order, query, n).len() ==> !(
            #[trigger] s.picker_entries(runtimes, order, query, n)[k]).is_directory,
    decreases n,
{
    if n > 0 {
        lemma_picker_entries_are_workspaces(s, runtimes, order, query, (n - 1) as nat);
        let before = s.picker_entries(runtimes, order, query, (n - 1) as nat);
        let entries = s.picker_entries(runtimes, order, query, n);
        assert forall|k: int| 0 <= k < entries.len() implies !(
        #[trigger] entries[k]).is_directory by {
            if k < before.len() {
                assert(entries[k] == before[k]);
            }
        }
    }
}

/// In every mode each workspace has at most one row of its own.
pub proof fn lemma_picks_each_once(s: AppModel, runtimes: RegistryModel)
    requires
        s.workspaces.len() <= usize::MAX,
    ensures
        picks_each_once(s.picker_rows(runtimes)),
{
    reveal(AppModel::picker_rows);
    let order = s.picker_order();
    let query = trim(s.picker.query);
    let rows = s.picker_rows(runtimes);
    lemma_mru_indices(s);
    assert(distinct_below(order, s.workspaces.len()));
    if s.picker.mode.searches() && query.len() > 0 {
        let all = s.picker_entries(runtimes, order, query, order.len());
        let entries = stably_sorted::<SearchEntry>(all);
        lemma_picker_entries_once(s, runtimes, order, query, order.len());
        lemma_picker_entries_are_workspaces(s, runtimes, order, query, order.len());
        lemma_sorted_sources_once(all);
        lemma_sorted_permutation::<SearchEntry>(all);
        assert forall|k: int| 0 <= k < entries.len() implies !(
        #[trigger] entries[k]).is_directory by {
            broadcast use vstd::seq_lib::group_to_multiset_ensures;

            assert(entries.contains(entries[k]));
            assert(all.to_multiset().count(entries[k]) > 0);
            assert(all.contains(entries[k]));
        }
        assert forall|i: int, j: int| 0 <= i < j < rows.len() implies (#[trigger] rows[i]).ws_idx
            != (#[trigger] rows[j]).ws_idx by {
            assert(entries[i].is_directory == entries[j].is_directory);
        }
    } else {
        lemma_listed_workspaces(s, runtimes, order, order.len());
    }
}

/// Cycling goes round the rows of workspaces in every mode, and from a tab as from the row of its
/// workspace: by `delta` from number `k` to number `k + delta`, modulo how many there are. Going
/// back by `delta`, or round once, leads to the row of the workspace that was selected. A tab is
/// never selected.
pub proof fn lemma_picker_cycle(s: AppModel, runtimes: RegistryModel, delta: int, k: int)
    requires
        s.workspaces.len() <= usize::MAX,
        s.picker_rows(runtimes).len() <= usize::MAX,
        picker_cycles_from(s.picker_rows(runtimes), s.picker.selected, k),
    ensures
        ({
            let rows = s.picker_rows(runtimes);
            let positions = picker_positions(rows, rows.len());
            let n = positions.len() as int;
            let t = s.picker_cycled(runtimes, delta);
            &&& t.picker_rows(runtimes) == rows
            &&& t.picker.selected == positions[(k + delta) % n]
            &&& t.picker.selected < rows.len()
            &&& !rows[t.picker.selected as int].is_tab
            &&& t.picker_cycled(runtimes, -delta).picker.selected == positions[k]
            &&& s.picker_cycled(runtimes, n).picker.selected == positions[k]
            &&& !rows[s.picker.selected as int].is_tab ==> positions[k] == s.picker.selected
        }),
{
    let rows = s.picker_rows(runtimes);
    let positions = picker_positions(rows, rows.len());
    lemma_picks_each_once(s, runtimes);
    lemma_picker_positions(rows, rows.len());
    lemma_picker_cycled_row(rows, s.picker.selected, delta, k);
    let next = picker_cycled_row(rows, s.picker.selected, delta);
    reveal(AppModel::picker_cycled);
    lemma_picked(s, runtimes, positions[k]);
    lemma_picked(s, runtimes, next);
    lemma_picked(s.picked(runtimes, next), runtimes, positions[k]);
}

proof fn lemma_listed_prefix(
    s: AppModel,
    runtimes: RegistryModel,
    order: Seq<usize>,
    m: nat,
    n: nat,
)
    requires
        m <= n,
    ensures
        ({
            let front = s.picker_listed(runtimes, order, m);
            let rows = s.picker_listed(runtimes, order, n);
            &&& front.len() <= rows.len()
            &&& forall|r: int| 0 <= r < front.len() ==> #[trigger] rows[r] == front[r]
        }),
    decreases n,
{
    if m < n {
        lemma_listed_prefix(s, runtimes, order, m, (n - 1) as nat);
        let before = s.picker_listed(runtimes, order, (n - 1) as nat);
        let front = s.picker_listed(runtimes, order, m);
        let rows = s.picker_listed(runtimes, order, n);
        assert forall|r: int| 0 <= r < front.len() implies #[trigger] rows[r] == front[r] by {
            assert(rows[r] == before[r]);
        }
    }
}

proof fn lemma_listed_others(
    s: AppModel,
    expanded: Set<Seq<char>>,
    id: Seq<char>,
    runtimes: RegistryModel,
    order: Seq<usize>,
    n: nat,
)
    requires
        n <= order.len(),
        forall|x: Seq<char>|
            x != id ==> (#[trigger] expanded.contains(x) <==> s.picker.expanded.contains(x)),
        forall|k: int| 0 <= k < n ==> s.workspaces[#[trigger] order[k] as int].id != id,
    ensures
        s.with_picker_expanded(expanded).picker_listed(runtimes, order, n) == s.picker_listed(
            runtimes,
            order,
            n,
        ),
    decreases n,
{
    if n > 0 {
        let i = order[n - 1] as int;
        let e = s.with_picker_expanded(expanded);
        lemma_listed_others(s, expanded, id, runtimes, order, (n - 1) as nat);
        assert(e.is_grouped_child(i) == s.is_grouped_child(i));
        assert(e.label(runtimes, i) == s.label(runtimes, i));
        assert(e.picker_tab_rows(i) =~= s.picker_tab_rows(i));
        assert(expanded.contains(s.workspaces[i].id) <==> s.picker.expanded.contains(
            s.workspaces[i].id,
        ));
    }
}

/// The rows of an expanded workspace: its own, and below it those of its tabs.
proof fn lemma_picker_rows_expanded(s: AppModel, runtimes: RegistryModel, w: usize, i: usize)
    requires
        s.workspaces.len() <= usize::MAX,
        s.picker.mode == WorkspacePickerMode::QuickSwitch,
        i < s.picker_rows(runtimes).len(),
        s.picker_rows(runtimes)[i as int].ws_idx == w,
        !s.picker_rows(runtimes)[i as int].is_tab,
        w < s.workspaces.len(),
        forall|j: int|
            0 <= j < s.workspaces.len() && j != w ==> (#[trigger] s.workspaces[j]).id
                != s.workspaces[w as int].id,
    ensures
        ({
            let id = s.workspaces[w as int].id;
            let tabs = s.workspaces[w as int].tabs.len();
            let rows = s.with_picker_expanded(s.picker.expanded.insert(id)).picker_rows(runtimes);
            &&& i + tabs < rows.len()
            &&& forall|r: int| i <= r <= i + tabs ==> (#[trigger] rows[r]).ws_idx == w
        }),
{
    reveal(AppModel::picker_rows);
    let order = s.mru_indices();
    let id = s.workspaces[w as int].id;
    let e = s.with_picker_expanded(s.picker.expanded.insert(id));
    assert(s.picker_order() == order);
    assert(e.mru_indices() == order);
    assert(e.picker_order() == order);
    lemma_mru_indices(s);
    assert(order.contains(w));
    let at = choose|k: int| 0 <= k < order.len() && order[k] == w;
    let n = at as nat;
    assert forall|k: int| 0 <= k < n implies s.workspaces[#[trigger] order[k] as int].id != id by {
        assert(order[k] != order[at]);
        assert(order[k] < s.workspaces.len());
    }
    lemma_listed_others(s, e.picker.expanded, id, runtimes, order, n);
    lemma_listed_workspaces(s, runtimes, order, order.len());
    let rows = s.picker_rows(runtimes);
    let front = s.picker_listed(runtimes, order, n);
    let with_w = s.picker_listed(runtimes, order, n + 1);
    lemma_listed_prefix(s, runtimes, order, n + 1, order.len());
    let p = front.len() as int;
    assert(with_w[p].ws_idx == w && !with_w[p].is_tab);
    assert(rows[p] == with_w[p]);
    assert(p == i) by {
        if p < i {
            assert(rows[p].ws_idx != rows[i as int].ws_idx);
        } else if i < p {
            assert(rows[i as int].ws_idx != rows[p].ws_idx);
        }
    }
    let opened = e.picker_listed(runtimes, order, n + 1);
    let all = e.picker_rows(runtimes);
    lemma_listed_prefix(e, runtimes, order, n + 1, order.len());
    let tabs = s.workspaces[w as int].tabs.len();
    assert(opened.len() == p + 1 + tabs);
    assert forall|r: int| i <= r <= i + tabs implies (#[trigger] all[r]).ws_idx == w by {
        assert(all[r] == opened[r]);
        if r > i {
            assert(opened[r] == e.picker_tab_rows(w as int)[r - i - 1]);
        }
    }
}

proof fn lemma_picker_position(
    rows: Seq<PickerRowModel>,
    p: spec_fn(PickerRowModel) -> bool,
    from: int,
)
    requires
        0 <= from,
    ensures
        match picker_position(rows, p, from) {
            Some(i) => from <= i < rows.len() && p(rows[i]) && forall|k: int|
                from <= k < i ==> !p(#[trigger] rows[k]),
            None => forall|k: int| from <= k < rows.len() ==> !p(#[trigger] rows[k]),
        },
    decreases rows.len() - from,
{
    if from < rows.len() && !p(rows[from]) {
        lemma_picker_position(rows, p, from + 1);
    }
}

/// Collapsing workspace `w` leads to the state `s` before it was expanded, with its row selected.
proof fn lemma_picker_collapse_to(
    s: AppModel,
    m: AppModel,
    runtimes: RegistryModel,
    w: usize,
    i: usize,
)
    requires
        s.workspaces.len() <= usize::MAX,
        i < s.picker_rows(runtimes).len() <= usize::MAX,
        s.picker_rows(runtimes)[i as int].ws_idx == w,
        !s.picker_rows(runtimes)[i as int].is_tab,
        w < s.workspaces.len(),
        m.picked_workspace(runtimes) == Some(w),
        picks_alike(
            s,
            m.with_picker_expanded(m.picker.expanded.remove(s.workspaces[w as int].id)),
        ),
    ensures
        picks_alike(s, m.picker_collapsed(runtimes)),
        m.picker_collapsed(runtimes).picker_rows(runtimes) == s.picker_rows(runtimes),
        m.picker_collapsed(runtimes).picker.selected == i,
{
    let rows = s.picker_rows(runtimes);
    let c = m.with_picker_expanded(m.picker.expanded.remove(s.workspaces[w as int].id));
    lemma_picker_rows_depend(s, c, runtimes);
    lemma_picks_each_once(s, runtimes);
    assert(c.picker_row_of(runtimes, w) == i) by {
        reveal(AppModel::picker_row_of);
        let p = |row: PickerRowModel| row.ws_idx == w && !row.is_tab;
        lemma_picker_position(rows, p, 0);
        assert(p(rows[i as int]));
        let first = picker_position(rows, p, 0)->0;
        if first < i {
            assert(rows[first].ws_idx != rows[i as int].ws_idx);
        }
    }
    lemma_picked(c, runtimes, i);
    reveal(AppModel::picker_collapsed);
}

/// The state with the selected workspace expanded and a row below it selected.
proof fn lemma_picker_expand_then_move(
    s: AppModel,
    runtimes: RegistryModel,
    w: usize,
    down: int,
)
    requires
        s.workspaces.len() <= usize::MAX,
        s.picker.mode == WorkspacePickerMode::QuickSwitch,
        s.picker.selected < s.picker_rows(runtimes).len(),
        s.picker_rows(runtimes)[s.picker.selected as int].ws_idx == w,
        !s.picker_rows(runtimes)[s.picker.selected as int].is_tab,
        w < s.workspaces.len(),
        s.with_picker_expanded(
            s.picker.expanded.insert(s.workspaces[w as int].id),
        ).picker_rows(runtimes).len() <= usize::MAX,
        forall|j: int|
            0 <= j < s.workspaces.len() && j != w ==> (#[trigger] s.workspaces[j]).id
                != s.workspaces[w as int].id,
        0 <= down <= s.workspaces[w as int].tabs.len(),
    ensures
        ({
            let id = s.workspaces[w as int].id;
            let m = s.picker_expanded(runtimes).picker_moved(runtimes, down);
            &&& m.picker.selected == s.picker.selected + down
            &&& picks_alike(s.with_picker_expanded(s.picker.expanded.insert(id)), m)
            &&& m.picked_workspace(runtimes) == Some(w)
        }),
{
    let i = s.picker.selected;
    let id = s.workspaces[w as int].id;
    let opened = s.with_picker_expanded(s.picker.expanded.insert(id));
    lemma_picker_rows_expanded(s, runtimes, w, i);
    lemma_picked(opened, runtimes, i);
    let e = s.picker_expanded(runtimes);
    assert(e == opened.picked(runtimes, i)) by {
        reveal(AppModel::picker_expanded);
        reveal(AppModel::picker_clamped);
        reveal(AppModel::picked_workspace);
    }
    lemma_picker_move(e, runtimes, down);
    assert(e.picker_moved(runtimes, down).picked_workspace(runtimes) == Some(w)) by {
        reveal(AppModel::picked_workspace);
    }
}

/// Expanding the selected workspace, moving down among its tabs and collapsing it leads back: the
/// same workspaces are expanded, the list is the same, and the row of the workspace is selected.
/// Collapsing once more changes none of this. No other workspace has the id of this one.
pub proof fn lemma_picker_expand_then_collapse(
    s: AppModel,
    runtimes: RegistryModel,
    w: usize,
    down: int,
)
    requires
        s.workspaces.len() <= usize::MAX,
        s.picker.mode == WorkspacePickerMode::QuickSwitch,
        s.picker.selected < s.picker_rows(runtimes).len() <= usize::MAX,
        s.picker_rows(runtimes)[s.picker.selected as int].ws_idx == w,
        !s.picker_rows(runtimes)[s.picker.selected as int].is_tab,
        w < s.workspaces.len(),
        !s.picker.expanded.contains(s.workspaces[w as int].id),
        s.with_picker_expanded(
            s.picker.expanded.insert(s.workspaces[w as int].id),
        ).picker_rows(runtimes).len() <= usize::MAX,
        forall|j: int|
            0 <= j < s.workspaces.len() && j != w ==> (#[trigger] s.workspaces[j]).id
                != s.workspaces[w as int].id,
        0 <= down <= s.workspaces[w as int].tabs.len(),
    ensures
        ({
            let moved = s.picker_expanded(runtimes).picker_moved(runtimes, down);
            let t = moved.picker_collapsed(runtimes);
            let u = t.picker_collapsed(runtimes);
            &&& moved.picker.selected == s.picker.selected + down
            &&& picks_alike(s, t)
            &&& t.picker_rows(runtimes) == s.picker_rows(runtimes)
            &&& t.picker.selected == s.picker.selected
            &&& picks_alike(s, u)
            &&& u.picker_rows(runtimes) == s.picker_rows(runtimes)
            &&& u.picker.selected == s.picker.selected
        }),
{
    let i = s.picker.selected;
    let id = s.workspaces[w as int].id;
    let m = s.picker_expanded(runtimes).picker_moved(runtimes, down);
    lemma_picker_expand_then_move(s, runtimes, w, down);
    assert(m.picker.expanded.remove(id) =~= s.picker.expanded);
    lemma_picker_collapse_to(s, m, runtimes, w, i);
    let t = m.picker_collapsed(runtimes);
    assert(t.picked_workspace(runtimes) == Some(w)) by {
        reveal(AppModel::picked_workspace);
    }
    assert(t.picker.expanded.remove(id) =~= s.picker.expanded);
    lemma_picker_collapse_to(s, t, runtimes, w, i);
}

// ---------------------------------------------------------------------------
// Opening, searching and accepting
// ---------------------------------------------------------------------------

proof fn lemma_collapsed_rows(s: AppModel, runtimes: RegistryModel, order: Seq<usize>, n: nat)
    requires
        n <= order.len(),
        s.picker.expanded == Set::<Seq<char>>::empty() || s.picker.mode
            != WorkspacePickerMode::QuickSwitch,
    ensures
        s.picker_listed(runtimes, order, n).len() == n,
        forall|k: int|
            0 <= k < n ==> {
                &&& (#[trigger] s.picker_listed(runtimes, order, n)[k]).ws_idx == order[k]
                &&& !s.picker_listed(runtimes, order, n)[k].is_tab
            },
    decreases n,
{
    if n > 0 {
        lemma_collapsed_rows(s, runtimes, order, (n - 1) as nat);
    }
}

/// Quick switching opens with one row for each workspace, the most recently used first, and with
/// the workspace selected that was used before the active one.
pub proof fn lemma_quick_switch_opened(s: AppModel, runtimes: RegistryModel)
    requires
        s.workspaces.len() <= usize::MAX,
        s.workspaces.len() >= 2,
        s.active is Some,
        s.active->0 < s.workspaces.len(),
    ensures
        ({
            let t = s.quick_switch_opened(runtimes);
            let rows = t.picker_rows(runtimes);
            let order = s.mru_indices();
            &&& t.picker.mode == WorkspacePickerMode::QuickSwitch
            &&& rows.len() == order.len()
            &&& forall|k: int| 0 <= k < rows.len() ==> (#[trigger] rows[k]).ws_idx == order[k]
            &&& rows.len() >= 2
            &&& rows[0].ws_idx == s.active->0
            &&& t.picker.selected == 1
        }),
{
    reveal(AppModel::quick_switch_opened);
    reveal(AppModel::picker_row_of_other);
    let shown = s.picker_shown(WorkspacePickerMode::QuickSwitch);
    let order = s.mru_indices();
    assert(shown.mru_indices() == order);
    lemma_mru_indices(s);
    let rows = shown.picker_rows(runtimes);
    assert(rows == shown.picker_listed(runtimes, order, order.len())) by {
        reveal(AppModel::picker_rows);
    }
    lemma_collapsed_rows(shown, runtimes, order, order.len());
    assert(order.len() >= 2) by {
        assert(order.contains(0usize));
        assert(order.contains(1usize));
        let a = choose|k: int| 0 <= k < order.len() && order[k] == 0usize;
        let b = choose|k: int| 0 <= k < order.len() && order[k] == 1usize;
        assert(order[a] != order[b]);
    }
    let active = s.active->0;
    assert(order[0] != order[1]);
    let p = |row: PickerRowModel| row.ws_idx != active && !row.is_tab;
    assert(!p(rows[0]));
    assert(p(rows[1]));
    reveal_with_fuel(picker_position, 3);
    assert(picker_position(rows, p, 0) == Some(1int));
    assert(order.len() <= usize::MAX) by {
        lemma_distinct_len(order, s.workspaces.len());
    }
    lemma_picked(shown, runtimes, 1);
}

/// A sequence of different numbers below `count` has at most `count` of them.
pub proof fn lemma_distinct_len(order: Seq<usize>, count: nat)
    requires
        distinct_below(order, count),
    ensures
        order.len() <= count,
    decreases count,
{
    if count == 0 {
        if order.len() > 0 {
            assert(order[0] < 0);
        }
    } else if order.contains((count - 1) as usize) && count - 1 <= usize::MAX {
        let last = (count - 1) as usize;
        let k = choose|k: int| 0 <= k < order.len() && order[k] == last;
        let rest = order.remove(k);
        assert forall|i: int| 0 <= i < rest.len() implies #[trigger] rest[i] < count - 1 by {
            let j = if i < k {
                i
            } else {
                i + 1
            };
            assert(rest[i] == order[j]);
            assert(order[j] != order[k]);
        }
        assert forall|i: int, j: int| 0 <= i < j < rest.len() implies #[trigger] rest[i]
            != #[trigger] rest[j] by {
            let a = if i < k {
                i
            } else {
                i + 1
            };
            let b = if j < k {
                j
            } else {
                j + 1
            };
            assert(order[a] != order[b]);
        }
        lemma_distinct_len(rest, (count - 1) as nat);
    } else {
        assert forall|i: int| 0 <= i < order.len() implies #[trigger] order[i] < count - 1 by {
            if order[i] == count - 1 {
                assert(order.contains((count - 1) as usize));
            }
        }
        lemma_distinct_len(order, (count - 1) as nat);
    }
}

/// The results of a search are in order: a better match comes first, and of equal matches the one
/// that is listed first.
pub proof fn lemma_picker_search_order(
    s: AppModel,
    runtimes: RegistryModel,
    order: Seq<usize>,
    query: Seq<char>,
)
    ensures
        is_sorted::<SearchEntry>(
            stably_sorted::<SearchEntry>(
                s.picker_entries(runtimes, order, query, order.len()),
            ),
        ),
{
    lemma_sorted_permutation::<SearchEntry>(
        s.picker_entries(runtimes, order, query, order.len()),
    );
}

/// An acceptance that fails changes nothing; one that succeeds makes the workspace of the selected
/// row the active and most recently used one and gives the keyboard to the terminal.
pub proof fn lemma_picker_accepted(s: AppModel, runtimes: RegistryModel)
    ensures
        !s.picker_accepts(runtimes) ==> s.picker_accepted(runtimes) == s,
        s.picker_accepts(runtimes) ==> {
            let t = s.picker_accepted(runtimes);
            let ws_idx = match s.picked_target(runtimes)->0 {
                WorkspacePickerTarget::Workspace { ws_idx } => ws_idx,
                WorkspacePickerTarget::Tab { ws_idx, .. } => ws_idx,
            };
            &&& ws_idx < s.workspaces.len()
            &&& t.active == Some(ws_idx)
            &&& t.mru[0] == s.workspaces[ws_idx as int].id
            &&& t.mode == Mode::Terminal
        },
{
    reveal(AppModel::picker_accepts);
    reveal(AppModel::picker_accepted);
    reveal(AppModel::picked_focused);
}

/// Closing the picker changes nothing but who has the keyboard.
pub proof fn lemma_picker_closed(s: AppModel)
    ensures
        s.picker_closed() == (AppModel { mode: s.picker_closed().mode, ..s }),
        s.picker_closed().mode == Mode::Terminal <==> s.active is Some,
{
}

// ---------------------------------------------------------------------------
// The mouse
// ---------------------------------------------------------------------------

/// The mouse hits the row that is drawn under it.
pub proof fn lemma_drawn_picker_row_is_hit(
    s: AppModel,
    runtimes: RegistryModel,
    line: int,
    col: u16,
    row: u16,
)
    requires
        0 <= line < s.picker_body().height,
        s.picker.scroll + line < s.picker_rows(runtimes).len() <= usize::MAX,
        s.picker_body().y + s.picker_body().height <= u16::MAX,
        s.picker_body().x + s.picker_body().width <= u16::MAX,
        covers(
            clipped_rect(
                s.picker_body().x as int,
                s.picker_body().y + line,
                s.picker_body().width as int,
                1,
            ),
            col as int,
            row as int,
        ),
    ensures
        s.picker_row_at(runtimes, col, row) == Some((s.picker.scroll + line) as usize),
{
    reveal(AppModel::picker_row_at);
}

} // verus!
