//! What keys and the mouse do to the picker, from the key or the place to the state after it.

use vstd::prelude::*;
use crate::actions::ListAction;
use crate::geometry::{covers, popup_of};
use crate::input::{KeyCode, KeyEvent, ModifierKeyCode, MouseButton, MouseEvent, MouseEventKind};
use crate::key_laws::{
    bare, control_alone, down_in_search, lemma_quick_means, lemma_round, lemma_search_means,
    plain_command, presses, types, up_in_search,
};
use crate::picker::picker_positions;
use crate::picker_laws::{
    lemma_picked, lemma_picker_cycle, lemma_picker_move, lemma_picker_rows_depend,
    picker_cycles_from, picks_alike,
};
use crate::picker_rows::WorkspacePickerTarget;
use crate::state::{AppModel, Mode, WorkspacePickerMode};
use crate::terminal::RegistryModel;

verus! {

/// Whether `t` has the list and the workspaces of `s`, with row `i` selected.
#[verifier::opaque]
pub open spec fn picks_row(s: AppModel, t: AppModel, runtimes: RegistryModel, i: int) -> bool {
    &&& t.picker_rows(runtimes) == s.picker_rows(runtimes)
    &&& 0 <= i < s.picker_rows(runtimes).len()
    &&& t.picker.selected == i
    &&& t.picker.query == s.picker.query
    &&& t.picker.mode == s.picker.mode
    &&& t.picker.expanded == s.picker.expanded
    &&& t.workspaces == s.workspaces
    &&& t.active == s.active
    &&& t.mru == s.mru
}

/// The state after a key for the picker.
pub open spec fn after_picker_key(s: AppModel, runtimes: RegistryModel, key: KeyEvent) -> AppModel {
    s.picker_performed(runtimes, s.picker_action(key))
}

proof fn lemma_picks(s: AppModel, runtimes: RegistryModel, row: usize)
    requires
        row < s.picker_rows(runtimes).len() <= usize::MAX,
    ensures
        picks_row(s, s.picked(runtimes, row), runtimes, row as int),
{
    reveal(picks_row);
    lemma_picked(s, runtimes, row);
}

proof fn lemma_moves(s: AppModel, runtimes: RegistryModel, delta: int)
    requires
        s.picker.selected < s.picker_rows(runtimes).len() <= usize::MAX,
    ensures
        ({
            let n = s.picker_rows(runtimes).len() as int;
            let i = s.picker.selected + delta;
            picks_row(
                s,
                s.picker_moved(runtimes, delta),
                runtimes,
                if i < 0 {
                    0
                } else if i >= n {
                    n - 1
                } else {
                    i
                },
            )
        }),
{
    reveal(picks_row);
    lemma_picker_move(s, runtimes, delta);
}

#[verifier::rlimit(40)]
proof fn lemma_steps(s: AppModel, runtimes: RegistryModel)
    ensures
        s.picker_performed(runtimes, ListAction::NextRow) == s.picker_moved(runtimes, 1),
        s.picker_performed(runtimes, ListAction::PreviousRow) == s.picker_moved(runtimes, -1),
        s.picker_performed(runtimes, ListAction::NextPage) == s.picker_moved(
            runtimes,
            s.picker_page(),
        ),
        s.picker_performed(runtimes, ListAction::PreviousPage) == s.picker_moved(
            runtimes,
            -s.picker_page(),
        ),
        s.picker_performed(runtimes, ListAction::FirstRow) == s.picked(runtimes, 0),
        s.picker_performed(runtimes, ListAction::LastRow) == s.picked(
            runtimes,
            s.picker_last_row(runtimes),
        ),
{
    reveal(AppModel::picker_performed);
    reveal(AppModel::picker_stepped);
}

proof fn lemma_last_row(s: AppModel, runtimes: RegistryModel)
    requires
        0 < s.picker_rows(runtimes).len() <= usize::MAX,
    ensures
        s.picker_last_row(runtimes) == s.picker_rows(runtimes).len() - 1,
{
    reveal(AppModel::picker_last_row);
}

/// In a search of the picker, Up, `k` and control-P select the row above, Down, `j` and control-N
/// the row below, as far as there is one; Home selects the first row and End the last.
#[verifier::rlimit(40)]
pub proof fn lemma_picker_search_row_keys(s: AppModel, runtimes: RegistryModel, key: KeyEvent)
    requires
        s.picker.mode != WorkspacePickerMode::QuickSwitch,
        s.picker.selected < s.picker_rows(runtimes).len() <= usize::MAX,
    ensures
        ({
            let i = s.picker.selected as int;
            let n = s.picker_rows(runtimes).len() as int;
            let t = after_picker_key(s, runtimes, key);
            &&& up_in_search(key) && i > 0 ==> picks_row(s, t, runtimes, i - 1)
            &&& up_in_search(key) && i == 0 ==> picks_row(s, t, runtimes, 0)
            &&& down_in_search(key) && i + 1 < n ==> picks_row(s, t, runtimes, i + 1)
            &&& down_in_search(key) && i + 1 == n ==> picks_row(s, t, runtimes, i)
            &&& key.code == KeyCode::Home ==> picks_row(s, t, runtimes, 0)
            &&& key.code == KeyCode::End ==> picks_row(s, t, runtimes, n - 1)
        }),
{
    let n = s.picker_rows(runtimes).len() as int;
    let empty = s.picker.query.len() == 0;
    lemma_search_means(key, empty, ListAction::LeaveSearch, 'a');
    lemma_search_means(key, empty, ListAction::Close, 'a');
    lemma_steps(s, runtimes);
    if up_in_search(key) {
        lemma_moves(s, runtimes, -1);
    } else if down_in_search(key) {
        lemma_moves(s, runtimes, 1);
    } else if key.code == KeyCode::Home {
        lemma_picks(s, runtimes, 0);
    } else if key.code == KeyCode::End {
        lemma_last_row(s, runtimes);
        lemma_picks(s, runtimes, (n - 1) as usize);
    }
}

/// In a search of the picker, the page keys go as many rows as the list has lines, one at least, as
/// far as there are rows.
#[verifier::rlimit(40)]
pub proof fn lemma_picker_page_keys(s: AppModel, runtimes: RegistryModel, key: KeyEvent)
    requires
        s.picker.mode != WorkspacePickerMode::QuickSwitch,
        s.picker.selected < s.picker_rows(runtimes).len() <= usize::MAX,
    ensures
        ({
            let i = s.picker.selected as int;
            let n = s.picker_rows(runtimes).len() as int;
            let height = s.picker_body().height as int;
            let page = if height == 0 {
                1
            } else {
                height
            };
            let t = after_picker_key(s, runtimes, key);
            &&& key.code == KeyCode::PageDown && i + page < n ==> picks_row(
                s,
                t,
                runtimes,
                i + page,
            )
            &&& key.code == KeyCode::PageDown && i + page >= n ==> picks_row(s, t, runtimes, n - 1)
            &&& key.code == KeyCode::PageUp && i >= page ==> picks_row(s, t, runtimes, i - page)
            &&& key.code == KeyCode::PageUp && i < page ==> picks_row(s, t, runtimes, 0)
        }),
{
    let empty = s.picker.query.len() == 0;
    lemma_search_means(key, empty, ListAction::LeaveSearch, 'a');
    lemma_search_means(key, empty, ListAction::Close, 'a');
    lemma_steps(s, runtimes);
    let height = s.picker_body().height as int;
    assert(s.picker_page() == if height == 0 {
        1
    } else {
        height
    }) by {
        reveal(AppModel::picker_page);
    }
    if key.code == KeyCode::PageDown {
        lemma_moves(s, runtimes, s.picker_page());
    } else if key.code == KeyCode::PageUp {
        lemma_moves(s, runtimes, -s.picker_page());
    }
}

/// While quick switching with the picker, Up and `k` select the row above and Down and `j` the row
/// below, as far as there is one; Home selects the first row and End the last.
#[verifier::rlimit(40)]
pub proof fn lemma_picker_quick_row_keys(s: AppModel, runtimes: RegistryModel, key: KeyEvent)
    requires
        s.picker.mode == WorkspacePickerMode::QuickSwitch,
        s.picker.selected < s.picker_rows(runtimes).len() <= usize::MAX,
        plain_command(s.keybinds.quick_switch, key),
    ensures
        ({
            let i = s.picker.selected as int;
            let n = s.picker_rows(runtimes).len() as int;
            let t = after_picker_key(s, runtimes, key);
            let up = key.code == KeyCode::Up || key.code == KeyCode::Char('k');
            let down = key.code == KeyCode::Down || key.code == KeyCode::Char('j');
            &&& up && i > 0 ==> picks_row(s, t, runtimes, i - 1)
            &&& up && i == 0 ==> picks_row(s, t, runtimes, 0)
            &&& down && i + 1 < n ==> picks_row(s, t, runtimes, i + 1)
            &&& down && i + 1 == n ==> picks_row(s, t, runtimes, i)
            &&& key.code == KeyCode::Home ==> picks_row(s, t, runtimes, 0)
            &&& key.code == KeyCode::End ==> picks_row(s, t, runtimes, n - 1)
        }),
{
    let n = s.picker_rows(runtimes).len() as int;
    lemma_quick_means(key, s.keybinds.quick_switch, false);
    lemma_steps(s, runtimes);
    if key.code == KeyCode::Up || key.code == KeyCode::Char('k') {
        lemma_moves(s, runtimes, -1);
    } else if key.code == KeyCode::Down || key.code == KeyCode::Char('j') {
        lemma_moves(s, runtimes, 1);
    } else if key.code == KeyCode::Home {
        lemma_picks(s, runtimes, 0);
    } else if key.code == KeyCode::End {
        lemma_last_row(s, runtimes);
        lemma_picks(s, runtimes, (n - 1) as usize);
    }
}

/// While quick switching with the picker, the binding goes to the next workspace and the backward
/// binding, or a shift key with the modifiers of the binding, to the one before, round and round.
#[verifier::rlimit(40)]
pub proof fn lemma_picker_cycle_keys(s: AppModel, runtimes: RegistryModel, key: KeyEvent, k: int)
    requires
        s.workspaces.len() <= usize::MAX,
        s.picker.mode == WorkspacePickerMode::QuickSwitch,
        s.picker_rows(runtimes).len() <= usize::MAX,
        picker_cycles_from(s.picker_rows(runtimes), s.picker.selected, k),
        key.code != KeyCode::Esc,
        key.code != KeyCode::Enter,
        !(key.code == KeyCode::Char('c') && control_alone(key.modifiers)),
    ensures
        ({
            let rows = s.picker_rows(runtimes);
            let places = picker_positions(rows, rows.len());
            let n = places.len() as int;
            let t = after_picker_key(s, runtimes, key);
            let forward = presses(key, s.keybinds.quick_switch.forward_combo());
            let backward = !forward && presses(key, s.keybinds.quick_switch.backward_combo());
            let shift = plain_command(s.keybinds.quick_switch, key) && (key.code
                == KeyCode::Modifier(ModifierKeyCode::LeftShift) || key.code == KeyCode::Modifier(
                ModifierKeyCode::RightShift,
            ));
            &&& forward ==> t.picker_rows(runtimes) == rows && t.picker.selected == places[if k + 1
                < n {
                k + 1
            } else {
                0
            }]
            &&& backward || shift ==> t.picker_rows(runtimes) == rows && t.picker.selected
                == places[if k > 0 {
                k - 1
            } else {
                n - 1
            }]
        }),
{
    let rows = s.picker_rows(runtimes);
    let n = picker_positions(rows, rows.len()).len() as int;
    lemma_quick_means(key, s.keybinds.quick_switch, false);
    assert(s.picker_performed(runtimes, ListAction::CycleForward) == s.picker_cycled(runtimes, 1)
        && s.picker_performed(runtimes, ListAction::CycleBackward) == s.picker_cycled(
        runtimes,
        -1,
    )) by {
        reveal(AppModel::picker_performed);
        reveal(AppModel::picker_walked);
    }
    lemma_round(k, n);
    if presses(key, s.keybinds.quick_switch.forward_combo()) {
        lemma_picker_cycle(s, runtimes, 1, k);
    } else {
        lemma_picker_cycle(s, runtimes, -1, k);
    }
}

/// Whether `t` is `s` with the query `query` in the picker, and the selection still on its row or,
/// where the list has become too short, on the last one.
pub open spec fn picks_for(
    s: AppModel,
    t: AppModel,
    runtimes: RegistryModel,
    query: Seq<char>,
) -> bool {
    let n = t.picker_rows(runtimes).len() as int;
    let i = s.picker.selected as int;
    &&& t.picker.query == query
    &&& t.picker.mode == s.picker.mode
    &&& t.workspaces == s.workspaces
    &&& t.active == s.active
    &&& t.mru == s.mru
    &&& i < n ==> t.picker.selected == i
    &&& 0 < n <= i ==> t.picker.selected == n - 1
    &&& n == 0 ==> t.picker.selected == 0
}

#[verifier::rlimit(40)]
proof fn lemma_edited(s: AppModel, runtimes: RegistryModel, query: Seq<char>)
    ensures
        picks_for(s, s.picker_query_edited(runtimes, query), runtimes, query),
{
    let q = s.with_picker_query(query);
    let n = q.picker_rows(runtimes).len() as int;
    let row = crate::switcher_model::clamped(
        q.picker.selected as int,
        crate::geometry::minus(n, 1),
    ) as usize;
    let t = q.picked(runtimes, row);
    assert(s.picker_query_edited(runtimes, query) == t) by {
        reveal(AppModel::picker_query_edited);
        reveal(AppModel::picker_clamped);
    }
    assert(picks_alike(q, t) && t.picker.selected == row) by {
        reveal(AppModel::picked);
        reveal(AppModel::picker_scrolled);
        reveal(AppModel::picker_previewed);
    }
    lemma_picker_rows_depend(q, t, runtimes);
}

/// In a search of the picker, characters go behind the query, Backspace takes the last one off, and
/// control-U all of them.
#[verifier::rlimit(40)]
pub proof fn lemma_picker_query_keys(s: AppModel, runtimes: RegistryModel, key: KeyEvent, c: char)
    requires
        s.picker.mode != WorkspacePickerMode::QuickSwitch,
    ensures
        ({
            let t = after_picker_key(s, runtimes, key);
            let query = s.picker.query;
            &&& types(key, c, query.len() == 0) ==> picks_for(s, t, runtimes, query + seq![c])
            &&& key.code == KeyCode::Backspace && query.len() > 0 ==> picks_for(
                s,
                t,
                runtimes,
                query.take(query.len() - 1),
            )
            &&& key.code == KeyCode::Backspace && query.len() == 0 ==> picks_for(
                s,
                t,
                runtimes,
                query,
            )
            &&& key.code == KeyCode::Char('u') && control_alone(key.modifiers) ==> picks_for(
                s,
                t,
                runtimes,
                Seq::<char>::empty(),
            )
        }),
{
    let query = s.picker.query;
    lemma_search_means(key, query.len() == 0, ListAction::LeaveSearch, c);
    lemma_search_means(key, query.len() == 0, ListAction::Close, c);
    if types(key, c, query.len() == 0) {
        assert(query.push(c) =~= query + seq![c]);
        lemma_edited(s, runtimes, query.push(c));
        lemma_edits(s, runtimes, c);
    } else if key.code == KeyCode::Backspace {
        lemma_edits(s, runtimes, c);
        if query.len() > 0 {
            assert(query.drop_last() =~= query.take(query.len() - 1));
            lemma_edited(s, runtimes, query.drop_last());
        } else {
            lemma_edited(s, runtimes, query);
        }
    } else if key.code == KeyCode::Char('u') && control_alone(key.modifiers) {
        lemma_edits(s, runtimes, c);
        lemma_edited(s, runtimes, Seq::<char>::empty());
    }
}

#[verifier::rlimit(40)]
proof fn lemma_edits(s: AppModel, runtimes: RegistryModel, c: char)
    ensures
        s.picker_performed(runtimes, ListAction::TypeChar(c)) == s.picker_query_edited(
            runtimes,
            s.picker.query.push(c),
        ),
        s.picker_performed(runtimes, ListAction::EraseChar) == s.picker_query_edited(
            runtimes,
            if s.picker.query.len() > 0 {
                s.picker.query.drop_last()
            } else {
                s.picker.query
            },
        ),
        s.picker_performed(runtimes, ListAction::EraseQuery) == s.picker_query_edited(
            runtimes,
            Seq::<char>::empty(),
        ),
{
    reveal(AppModel::picker_performed);
    reveal(AppModel::picker_typed);
}

/// Whether the picker of `t` is closed and nothing else has changed but who has the keyboard: the
/// terminal of the active workspace where there is one.
pub open spec fn picker_gone(s: AppModel, t: AppModel) -> bool {
    &&& t.workspaces == s.workspaces
    &&& t.active == s.active
    &&& t.mru == s.mru
    &&& s.active is Some ==> t.mode == Mode::Terminal
    &&& s.active is None ==> t.mode == Mode::Navigate
}

/// Control-C closes the picker, and so does `q` in a search without a query. Escape closes it too,
/// but from a search among recent workspaces it goes back to quick switching; `s` starts such a
/// search.
#[verifier::rlimit(40)]
pub proof fn lemma_picker_end_keys(s: AppModel, runtimes: RegistryModel, key: KeyEvent)
    ensures
        ({
            let t = after_picker_key(s, runtimes, key);
            let searches = s.picker.mode != WorkspacePickerMode::QuickSwitch;
            &&& key.code == KeyCode::Char('c') && control_alone(key.modifiers) ==> picker_gone(s, t)
            &&& searches && key.code == KeyCode::Char('q') && bare(key.modifiers)
                && s.picker.query.len() == 0 ==> picker_gone(s, t)
            &&& key.code == KeyCode::Esc && s.picker.mode != WorkspacePickerMode::QuickSwitchSearch
                ==> picker_gone(s, t)
            &&& key.code == KeyCode::Esc && s.picker.mode == WorkspacePickerMode::QuickSwitchSearch
                ==> t.picker.mode == WorkspacePickerMode::QuickSwitch && t.picker.query.len() == 0
                && t.mode == s.mode && t.active == s.active
            &&& !searches && key.code == KeyCode::Char('s') && plain_command(
                s.keybinds.quick_switch,
                key,
            ) ==> t.picker.mode == WorkspacePickerMode::QuickSwitchSearch && t.picker.query.len()
                == 0 && t.mode == s.mode && t.active == s.active
        }),
{
    let empty = s.picker.query.len() == 0;
    lemma_search_means(key, empty, ListAction::LeaveSearch, 'a');
    lemma_search_means(key, empty, ListAction::Close, 'a');
    lemma_quick_means(key, s.keybinds.quick_switch, false);
    assert(s.picker_performed(runtimes, ListAction::Close) == s.picker_closed()
        && s.picker_performed(runtimes, ListAction::LeaveSearch) == s.picker_search_left(runtimes)
        && s.picker_performed(runtimes, ListAction::EnterSearch) == s.picker_search_entered(
        runtimes,
    )) by {
        reveal(AppModel::picker_performed);
    }
    lemma_modes(s, runtimes);
}

#[verifier::rlimit(40)]
proof fn lemma_modes(s: AppModel, runtimes: RegistryModel)
    ensures
        ({
            let left = s.picker_search_left(runtimes);
            let entered = s.picker_search_entered(runtimes);
            &&& left.picker.mode == WorkspacePickerMode::QuickSwitch
            &&& left.picker.query.len() == 0
            &&& left.mode == s.mode
            &&& left.active == s.active
            &&& entered.picker.mode == WorkspacePickerMode::QuickSwitchSearch
            &&& entered.picker.query.len() == 0
            &&& entered.mode == s.mode
            &&& entered.active == s.active
        }),
{
    reveal(AppModel::picker_search_left);
    reveal(AppModel::picker_search_entered);
    reveal(AppModel::picker_clamped);
    reveal(AppModel::picked);
    reveal(AppModel::picker_scrolled);
    reveal(AppModel::picker_previewed);
}

proof fn lemma_enter_accepts(s: AppModel, runtimes: RegistryModel, key: KeyEvent)
    requires
        key.code == KeyCode::Enter,
    ensures
        after_picker_key(s, runtimes, key) == s.picker_accepted(runtimes),
{
    lemma_search_means(key, s.picker.query.len() == 0, ListAction::LeaveSearch, 'a');
    lemma_search_means(key, s.picker.query.len() == 0, ListAction::Close, 'a');
    lemma_quick_means(key, s.keybinds.quick_switch, false);
    reveal(AppModel::picker_performed);
}

proof fn lemma_workspace_accepted(s: AppModel, runtimes: RegistryModel, ws_idx: usize)
    requires
        s.picker.selected < s.picker_rows(runtimes).len(),
        s.picker_rows(runtimes)[s.picker.selected as int].target == (
        WorkspacePickerTarget::Workspace { ws_idx }),
        ws_idx < s.workspaces.len(),
    ensures
        s.picker_accepted(runtimes) == (AppModel { mode: Mode::Terminal, ..s.switched(ws_idx) }),
{
    reveal(AppModel::picker_accepted);
    reveal(AppModel::picked_target);
    reveal(AppModel::picked_focused);
}

proof fn lemma_tab_accepted(
    s: AppModel,
    runtimes: RegistryModel,
    ws_idx: usize,
    tab_idx: usize,
)
    requires
        s.picker.selected < s.picker_rows(runtimes).len(),
        s.picker_rows(runtimes)[s.picker.selected as int].target == (WorkspacePickerTarget::Tab {
            ws_idx,
            tab_idx,
        }),
        ws_idx < s.workspaces.len(),
        tab_idx < s.workspaces[ws_idx as int].tabs.len(),
    ensures
        s.picker_accepted(runtimes) == (AppModel {
            mode: Mode::Terminal,
            ..s.switched_tab(ws_idx, tab_idx)
        }),
{
    reveal(AppModel::picker_accepted);
    reveal(AppModel::picked_target);
    reveal(AppModel::picked_focused);
}

/// Enter goes to the workspace of the selected row, or to the tab of it: the workspace becomes the
/// active and most recently used one with that tab on top, and the terminal has the keyboard.
#[verifier::rlimit(40)]
pub proof fn lemma_picker_enter(s: AppModel, runtimes: RegistryModel, key: KeyEvent)
    requires
        key.code == KeyCode::Enter,
        s.picker.selected < s.picker_rows(runtimes).len(),
    ensures
        ({
            let t = after_picker_key(s, runtimes, key);
            match s.picker_rows(runtimes)[s.picker.selected as int].target {
                WorkspacePickerTarget::Workspace { ws_idx } => ws_idx < s.workspaces.len() ==> {
                    &&& t.active == Some(ws_idx)
                    &&& t.mru.len() > 0
                    &&& t.mru[0] == s.workspaces[ws_idx as int].id
                    &&& t.workspaces == s.workspaces
                    &&& t.mode == Mode::Terminal
                },
                WorkspacePickerTarget::Tab { ws_idx, tab_idx } => ws_idx < s.workspaces.len()
                    && tab_idx < s.workspaces[ws_idx as int].tabs.len() ==> {
                    &&& t.active == Some(ws_idx)
                    &&& t.mru.len() > 0
                    &&& t.mru[0] == s.workspaces[ws_idx as int].id
                    &&& t.workspaces.len() == s.workspaces.len()
                    &&& t.workspaces[ws_idx as int].active_tab == tab_idx
                    &&& t.workspaces[ws_idx as int].tabs == s.workspaces[ws_idx as int].tabs
                    &&& forall|k: int|
                        0 <= k < s.workspaces.len() && k != ws_idx ==> #[trigger] t.workspaces[k]
                            == s.workspaces[k]
                    &&& t.mode == Mode::Terminal
                },
            }
        }),
{
    lemma_enter_accepts(s, runtimes, key);
    match s.picker_rows(runtimes)[s.picker.selected as int].target {
        WorkspacePickerTarget::Workspace { ws_idx } => {
            if ws_idx < s.workspaces.len() {
                lemma_workspace_accepted(s, runtimes, ws_idx);
            }
        },
        WorkspacePickerTarget::Tab { ws_idx, tab_idx } => {
            if ws_idx < s.workspaces.len() && tab_idx < s.workspaces[ws_idx as int].tabs.len() {
                lemma_tab_accepted(s, runtimes, ws_idx, tab_idx);
            }
        },
    }
}

/// The rows of the picker stand for their workspaces and tabs.
#[verifier::rlimit(40)]
pub proof fn lemma_picker_targets(s: AppModel, runtimes: RegistryModel, i: usize, t: int)
    requires
        i < s.workspaces.len(),
        0 <= t < s.workspaces[i as int].tabs.len() <= usize::MAX,
    ensures
        ({
            let own = s.picker_workspace_row(
                i as int,
                s.label(runtimes, i as int).existing,
                s.picker_expands(i as int),
            );
            let tabs = s.picker_tab_rows(i as int);
            &&& own.target == (WorkspacePickerTarget::Workspace { ws_idx: i })
            &&& own.ws_idx == i
            &&& !own.is_tab
            &&& own.label == s.label(runtimes, i as int).existing
            &&& tabs.len() == s.workspaces[i as int].tabs.len()
            &&& tabs[t].target == (WorkspacePickerTarget::Tab { ws_idx: i, tab_idx: t as usize })
            &&& tabs[t].ws_idx == i
            &&& tabs[t].is_tab
            &&& tabs[t].label == s.workspaces[i as int].tabs[t].display_name
        }),
{
}

// ---------------------------------------------------------------------------
// The mouse
// ---------------------------------------------------------------------------

/// The mouse selects the row of the picker that it moves over; a click goes to the row under it,
/// and one outside the popup closes the picker.
#[verifier::rlimit(40)]
pub proof fn lemma_picker_mouse(s: AppModel, runtimes: RegistryModel, mouse: MouseEvent)
    requires
        s.picker.selected < s.picker_rows(runtimes).len() <= usize::MAX,
    ensures
        ({
            let t = s.after_picker_mouse(runtimes, mouse);
            let row = s.picker_row_at(runtimes, mouse.column, mouse.row);
            let click = mouse.kind == MouseEventKind::Down(MouseButton::Left);
            let outside = !covers(popup_of(s.view), mouse.column as int, mouse.row as int);
            &&& mouse.kind == MouseEventKind::Moved && row is Some && row->0 < s.picker_rows(
                runtimes,
            ).len() && row->0 != s.picker.selected ==> picks_row(s, t, runtimes, row->0 as int)
            &&& mouse.kind == MouseEventKind::Moved && (row is None || row->0 == s.picker.selected)
                ==> t == s
            &&& click && row is None && outside ==> picker_gone(s, t)
            &&& click && row is None && !outside ==> t == s
            &&& click && row is Some ==> t == s.with_picked(row->0).picker_accepted(runtimes)
        }),
{
    reveal(AppModel::picker_hovered);
    reveal(AppModel::picker_clicked);
    let row = s.picker_row_at(runtimes, mouse.column, mouse.row);
    if row is Some && row->0 < s.picker_rows(runtimes).len() {
        lemma_picks(s, runtimes, row->0);
    }
}

/// The wheel scrolls the list of the picker by three rows, as far as it goes, and selects the row
/// at the top.
#[verifier::rlimit(40)]
pub proof fn lemma_picker_wheel(s: AppModel, runtimes: RegistryModel, mouse: MouseEvent)
    requires
        0 < s.picker_rows(runtimes).len() <= usize::MAX,
        s.picker_body().height > 0,
    ensures
        ({
            let t = s.after_picker_mouse(runtimes, mouse);
            let n = s.picker_rows(runtimes).len() as int;
            let height = s.picker_body().height as int;
            let last = if n > height {
                n - height
            } else {
                0
            };
            let down = s.picker.scroll + 3;
            let up = s.picker.scroll - 3;
            &&& mouse.kind == MouseEventKind::ScrollDown && down <= last ==> picks_row(
                s,
                t,
                runtimes,
                down,
            )
            &&& mouse.kind == MouseEventKind::ScrollDown && down > last ==> picks_row(
                s,
                t,
                runtimes,
                last,
            )
            &&& mouse.kind == MouseEventKind::ScrollUp && up < 0 ==> picks_row(s, t, runtimes, 0)
            &&& mouse.kind == MouseEventKind::ScrollUp && 0 <= up < n ==> picks_row(
                s,
                t,
                runtimes,
                up,
            )
        }),
{
    let n = s.picker_rows(runtimes).len() as int;
    let height = s.picker_body().height as int;
    let last = if n > height {
        n - height
    } else {
        0
    };
    assert(s.picker_max_scroll(runtimes, height) == last) by {
        reveal(AppModel::picker_max_scroll);
    }
    let down = s.picker.scroll + 3;
    let up = s.picker.scroll - 3;
    if mouse.kind == MouseEventKind::ScrollDown {
        lemma_wheeled(
            s,
            runtimes,
            if down <= last {
                down as usize
            } else {
                last as usize
            },
        );
    } else if mouse.kind == MouseEventKind::ScrollUp && up < n {
        lemma_wheeled(
            s,
            runtimes,
            if up < 0 {
                0
            } else {
                up as usize
            },
        );
    }
}

proof fn lemma_wheeled(s: AppModel, runtimes: RegistryModel, scroll: usize)
    requires
        scroll < s.picker_rows(runtimes).len() <= usize::MAX,
    ensures
        picks_row(s, s.picker_wheeled(runtimes, scroll), runtimes, scroll as int),
{
    reveal(picks_row);
    let m = s.with_picker_scroll(scroll).with_picked(scroll);
    lemma_picker_rows_depend(s, m, runtimes);
    assert(s.picker_wheeled(runtimes, scroll) == m.picked(runtimes, scroll)) by {
        reveal(AppModel::picker_wheeled);
        reveal(AppModel::picker_clamped);
    }
    lemma_picked(m, runtimes, scroll);
}

} // verus!
