//! What keys and the mouse do to the switcher, from the key or the place to the state after it.

use vstd::prelude::*;
use crate::actions::{quick_action, search_action, ListAction};
use crate::geometry::{covers, switcher_layout};
use crate::input::{
    first_direct, is_combo, BindingTrigger, CycleModel, KeyCode, KeyCombo, KeyEvent, KeyModifiers,
    ModifierKeyCode, MouseButton, MouseEvent, MouseEventKind,
};
use crate::navigation::{lemma_workspace_from, tab_from, tab_in_workspaces};
use crate::row_layout::lemma_max_scroll_is_a_row;
use crate::rows::TargetModel;
use crate::state::{AppModel, Mode, WorkspaceSwitcherMode};
use crate::switcher_laws::{
    cycles_from, lemma_accepted_by_identity, lemma_cycle, lemma_moved, lemma_preview_keeps,
    lemma_rows_depend, lemma_settled, lemma_target_keeps, lists_alike, selects_alike,
};
use crate::switcher_model::workspace_positions;
use crate::switcher_rows::lemma_switcher_rows_len;
use crate::terminal::RegistryModel;

verus! {

// ---------------------------------------------------------------------------
// Keys
// ---------------------------------------------------------------------------

/// Whether no modifier is held.
pub open spec fn bare(m: KeyModifiers) -> bool {
    !m.shift && !m.control && !m.alt && !m.super_key && !m.hyper && !m.meta
}

/// Whether shift is held and nothing else.
pub open spec fn shift_alone(m: KeyModifiers) -> bool {
    m.shift && !m.control && !m.alt && !m.super_key && !m.hyper && !m.meta
}

/// Whether control is held and nothing else.
pub open spec fn control_alone(m: KeyModifiers) -> bool {
    !m.shift && m.control && !m.alt && !m.super_key && !m.hyper && !m.meta
}

/// The keys that go one row up in a search.
pub open spec fn up_in_search(key: KeyEvent) -> bool {
    ||| (key.code == KeyCode::Up || key.code == KeyCode::Char('k')) && bare(key.modifiers)
    ||| key.code == KeyCode::Char('p') && control_alone(key.modifiers)
}

/// The keys that go one row down in a search.
pub open spec fn down_in_search(key: KeyEvent) -> bool {
    ||| (key.code == KeyCode::Down || key.code == KeyCode::Char('j')) && bare(key.modifiers)
    ||| key.code == KeyCode::Char('n') && control_alone(key.modifiers)
}

/// The keys that type a character into the query. `j` and `k` move instead, and so does `q` close
/// where there is no query yet.
pub open spec fn types(key: KeyEvent, c: char, query_empty: bool) -> bool {
    &&& key.code == KeyCode::Char(c)
    &&& bare(key.modifiers) || shift_alone(key.modifiers)
    &&& bare(key.modifiers) ==> c != 'j' && c != 'k' && (c == 'q' ==> !query_empty)
}

/// Whether commands count with the modifiers held: none, or at least those of the first direct
/// binding.
pub open spec fn commands(keybinds: CycleModel, m: KeyModifiers) -> bool {
    bare(m) || match keybinds.forward_combo() {
        Some(combo) => {
            &&& combo.modifiers.shift ==> m.shift
            &&& combo.modifiers.control ==> m.control
            &&& combo.modifiers.alt ==> m.alt
            &&& combo.modifiers.super_key ==> m.super_key
            &&& combo.modifiers.hyper ==> m.hyper
            &&& combo.modifiers.meta ==> m.meta
        },
        None => false,
    }
}

/// Whether a key is a combination of keys.
pub open spec fn presses(key: KeyEvent, combo: Option<KeyCombo>) -> bool {
    combo is Some && combo->0.code == key.code && combo->0.modifiers == key.modifiers
}

/// Whether a key means none of what goes before commands while quick switching.
pub open spec fn plain_command(keybinds: CycleModel, key: KeyEvent) -> bool {
    &&& commands(keybinds, key.modifiers)
    &&& !presses(key, keybinds.forward_combo())
    &&& !presses(key, keybinds.backward_combo())
}

/// The first direct binding is the one that counts. Where no binding goes backward, the one that
/// goes forward does so with shift.
pub proof fn lemma_bindings(keybinds: CycleModel, i: int, combo: KeyCombo)
    requires
        0 <= i < keybinds.forward.len(),
        keybinds.forward[i] == BindingTrigger::Direct(combo),
        forall|j: int| 0 <= j < i ==> !(#[trigger] keybinds.forward[j] is Direct),
    ensures
        keybinds.forward_combo() == Some(combo),
        (forall|j: int|
            0 <= j < keybinds.backward.len() ==> !(#[trigger] keybinds.backward[j] is Direct)) ==> {
            &&& keybinds.backward_combo() is Some
            &&& keybinds.backward_combo()->0.code == combo.code
            &&& keybinds.backward_combo()->0.modifiers == (KeyModifiers {
                shift: true,
                ..combo.modifiers
            })
        },
{
    lemma_first_direct(keybinds.forward, i, 0);
    if forall|j: int|
        0 <= j < keybinds.backward.len() ==> !(#[trigger] keybinds.backward[j] is Direct) {
        lemma_first_direct(keybinds.backward, keybinds.backward.len() as int, 0);
    }
}

/// A direct binding that goes backward counts where it is the first.
pub proof fn lemma_backward_binding(keybinds: CycleModel, i: int, combo: KeyCombo)
    requires
        0 <= i < keybinds.backward.len(),
        keybinds.backward[i] == BindingTrigger::Direct(combo),
        forall|j: int| 0 <= j < i ==> !(#[trigger] keybinds.backward[j] is Direct),
    ensures
        keybinds.backward_combo() == Some(combo),
{
    lemma_first_direct(keybinds.backward, i, 0);
}

proof fn lemma_first_direct(bindings: Seq<BindingTrigger>, i: int, from: int)
    requires
        0 <= from <= i <= bindings.len(),
        forall|j: int| from <= j < i ==> !(#[trigger] bindings[j] is Direct),
        i < bindings.len() ==> bindings[i] is Direct,
    ensures
        first_direct(bindings, from) == if i < bindings.len() {
            Some(bindings[i]->Direct_0)
        } else {
            None
        },
    decreases i - from,
{
    if from < i {
        lemma_first_direct(bindings, i, from + 1);
    }
}

// ---------------------------------------------------------------------------
// What an operation keeps
// ---------------------------------------------------------------------------

proof fn lemma_at_row(s: AppModel, runtimes: RegistryModel, row: usize)
    ensures
        selects_alike(s.with_selected(row), s.at_row(runtimes, row)),
{
    reveal(AppModel::at_row);
    reveal(AppModel::scrolled_to_selection);
    reveal(AppModel::with_anchor);
    lemma_preview_keeps(s.with_selected(row).scrolled_to_selection(runtimes), runtimes);
}

proof fn lemma_recorded(s: AppModel, runtimes: RegistryModel)
    requires
        s.switcher.active,
    ensures
        selects_alike(s, s.recorded_if_open(runtimes)),
        s.recorded_if_open(runtimes).switcher_rows(runtimes) == s.switcher_rows(runtimes),
        s.switcher.selected < s.switcher_rows(runtimes).len() ==> s.recorded_if_open(
            runtimes,
        ).switcher.selected_target == Some(
            s.switcher_rows(runtimes)[s.switcher.selected as int].target,
        ),
        s.recorded_if_open(runtimes).switcher.scroll == s.switcher.scroll,
        s.recorded_if_open(runtimes).switcher.pending == s.switcher.pending,
        s.recorded_if_open(runtimes).mode == s.mode,
{
    lemma_target_keeps(s, runtimes);
    lemma_rows_depend(s, s.with_target(runtimes), runtimes);
    assert(s.with_target(runtimes).switcher.pending == s.switcher.pending
        && s.with_target(runtimes).mode == s.mode) by {
        reveal(AppModel::with_target);
        reveal(AppModel::with_anchor);
    }
    reveal(AppModel::target_at_selection);
}

proof fn lemma_edited(s: AppModel, runtimes: RegistryModel, query: Seq<char>)
    ensures
        ({
            let t = s.query_edited(runtimes, query);
            let n = t.switcher_rows(runtimes).len() as int;
            let i = s.switcher.selected as int;
            &&& lists_alike(s.with_query(query), t)
            &&& t.switcher.active == s.switcher.active
            &&& n > 0 && i < n ==> t.switcher.selected == i
            &&& 0 < n <= i ==> t.switcher.selected == n - 1
            &&& n == 0 ==> t.switcher.selected == 0
        }),
{
    let q = s.with_query(query);
    lemma_clamped(q, runtimes);
    assert(s.query_edited(runtimes, query) == q.clamped_selection(runtimes)) by {
        reveal(AppModel::query_edited);
    }
}

proof fn lemma_clamped(s: AppModel, runtimes: RegistryModel)
    ensures
        ({
            let t = s.clamped_selection(runtimes);
            let n = s.switcher_rows(runtimes).len() as int;
            let i = s.switcher.selected as int;
            &&& lists_alike(s, t)
            &&& t.switcher_rows(runtimes) == s.switcher_rows(runtimes)
            &&& t.switcher.active == s.switcher.active
            &&& n > 0 && i < n ==> t.switcher.selected == i
            &&& 0 < n <= i ==> t.switcher.selected == n - 1
            &&& n == 0 ==> t.switcher.selected == 0
        }),
{
    reveal(AppModel::clamped_selection);
    let n = s.switcher_rows(runtimes).len() as int;
    let row = crate::switcher_model::clamped(
        s.switcher.selected as int,
        crate::geometry::minus(n, 1),
    ) as usize;
    let m = s.with_selected(row);
    lemma_settled(m, runtimes);
    lemma_rows_depend(s, m.settled(runtimes), runtimes);
}

proof fn lemma_few_rows(s: AppModel, runtimes: RegistryModel)
    requires
        s.countable(),
        s.workspaces.len() <= usize::MAX,
    ensures
        s.switcher_rows(runtimes).len() <= usize::MAX,
{
    reveal(AppModel::countable);
    lemma_switcher_rows_len(s, runtimes);
}

/// Whether `t` has the list, the session and the workspaces of `s`, with the row `i` selected and
/// its target recorded.
#[verifier::opaque]
pub open spec fn at_row_of(s: AppModel, t: AppModel, runtimes: RegistryModel, i: int) -> bool {
    let rows = s.switcher_rows(runtimes);
    &&& t.switcher_rows(runtimes) == rows
    &&& t.switcher.selected == i
    &&& 0 <= i < rows.len()
    &&& t.switcher.selected_target == Some(rows[i].target)
    &&& t.switcher.active
    &&& t.switcher.mode == s.switcher.mode
    &&& t.switcher.query == s.switcher.query
    &&& t.switcher.expanded == s.switcher.expanded
    &&& t.switcher.candidates == s.switcher.candidates
    &&& t.workspaces == s.workspaces
    &&& t.active == s.active
    &&& t.mru == s.mru
}

proof fn lemma_last_row(s: AppModel, runtimes: RegistryModel)
    requires
        s.countable(),
        s.workspaces.len() <= usize::MAX,
        s.switcher_rows(runtimes).len() > 0,
    ensures
        s.last_row(runtimes) == s.switcher_rows(runtimes).len() - 1,
{
    lemma_few_rows(s, runtimes);
    reveal(AppModel::last_row);
}

#[verifier::rlimit(40)]
proof fn lemma_cycled_and_recorded(s: AppModel, runtimes: RegistryModel, delta: int, k: int)
    requires
        s.countable(),
        s.workspaces.len() <= usize::MAX,
        s.switcher.candidates.len() <= usize::MAX,
        s.switcher.active,
        cycles_from(s.switcher_rows(runtimes), s.switcher.selected, k),
        delta == 1 || delta == -1,
    ensures
        ({
            let rows = s.switcher_rows(runtimes);
            let places = workspace_positions(rows, rows.len());
            let n = places.len() as int;
            let next = k + delta;
            at_row_of(
                s,
                s.cycled_selection(runtimes, delta).recorded_if_open(runtimes),
                runtimes,
                places[if next < 0 {
                    n - 1
                } else if next >= n {
                    0
                } else {
                    next
                }] as int,
            )
        }),
{
    reveal(at_row_of);
    let rows = s.switcher_rows(runtimes);
    let n = workspace_positions(rows, rows.len()).len() as int;
    lemma_cycle(s, runtimes, delta, k);
    let t = s.cycled_selection(runtimes, delta);
    assert(lists_alike(s, t) && t.switcher.active) by {
        reveal(AppModel::cycled_selection);
        lemma_settled(
            s.with_selected(crate::switcher_model::cycled_row(rows, s.switcher.selected, delta)),
            runtimes,
        );
    }
    lemma_recorded(t, runtimes);
    lemma_round(k, n);
}

/// One step round a circle of `n` places.
pub proof fn lemma_round(k: int, n: int)
    requires
        0 <= k < n,
    ensures
        (k + 1) % n == if k + 1 < n {
            k + 1
        } else {
            0
        },
        (k + -1) % n == if k > 0 {
            k - 1
        } else {
            n - 1
        },
{
    if k + 1 < n {
        vstd::arithmetic::div_mod::lemma_small_mod((k + 1) as nat, n as nat);
    } else {
        vstd::arithmetic::div_mod::lemma_mod_self_0(n);
    }
    if k > 0 {
        vstd::arithmetic::div_mod::lemma_small_mod((k - 1) as nat, n as nat);
    } else {
        vstd::arithmetic::div_mod::lemma_mod_add_multiples_vanish(-1, n);
        vstd::arithmetic::div_mod::lemma_small_mod((n - 1) as nat, n as nat);
    }
}

/// Whether `t` has the workspaces of `s`, and the switcher open in the same mode with the tabs of
/// the workspaces `expanded` shown.
pub open spec fn shows_tabs_of(s: AppModel, t: AppModel, expanded: Set<Seq<char>>) -> bool {
    &&& t.switcher.expanded == expanded
    &&& t.switcher.active
    &&& t.switcher.mode == s.switcher.mode
    &&& t.workspaces == s.workspaces
    &&& t.active == s.active
    &&& t.mru == s.mru
}

proof fn lemma_expanded_and_recorded(s: AppModel, runtimes: RegistryModel, w: usize)
    requires
        s.switcher.active,
        s.switcher.selected < s.switcher_rows(runtimes).len(),
        s.switcher_rows(runtimes)[s.switcher.selected as int].ws_idx == w,
        !s.switcher_rows(runtimes)[s.switcher.selected as int].is_directory,
        w < s.workspaces.len(),
    ensures
        shows_tabs_of(
            s,
            s.expanded_selection(runtimes).recorded_if_open(runtimes),
            s.switcher.expanded.insert(s.workspaces[w as int].id),
        ),
{
    let e = s.with_expanded(s.switcher.expanded.insert(s.workspaces[w as int].id));
    assert(s.expanded_selection(runtimes) == e.clamped_selection(runtimes)) by {
        reveal(AppModel::selected_workspace);
        reveal(AppModel::expanded_selection);
    }
    lemma_clamped(e, runtimes);
    lemma_recorded(e.clamped_selection(runtimes), runtimes);
}

proof fn lemma_collapsed_and_recorded(s: AppModel, runtimes: RegistryModel, w: usize)
    requires
        s.switcher.active,
        s.switcher.selected < s.switcher_rows(runtimes).len(),
        s.switcher_rows(runtimes)[s.switcher.selected as int].ws_idx == w,
        w < s.workspaces.len(),
    ensures
        shows_tabs_of(
            s,
            s.collapsed_selection(runtimes).recorded_if_open(runtimes),
            s.switcher.expanded.remove(s.workspaces[w as int].id),
        ),
{
    let c = s.with_expanded(s.switcher.expanded.remove(s.workspaces[w as int].id));
    let m = c.with_selected(c.row_of_workspace(runtimes, w));
    assert(s.collapsed_selection(runtimes) == m.settled(runtimes)) by {
        reveal(AppModel::collapsed_selection);
    }
    lemma_settled(m, runtimes);
    lemma_recorded(m.settled(runtimes), runtimes);
}

proof fn lemma_moved_and_recorded(s: AppModel, runtimes: RegistryModel, delta: int)
    requires
        s.countable(),
        s.workspaces.len() <= usize::MAX,
        s.switcher.active,
        s.switcher.selected < s.switcher_rows(runtimes).len(),
    ensures
        ({
            let n = s.switcher_rows(runtimes).len() as int;
            let i = s.switcher.selected + delta;
            let t = s.moved_selection(runtimes, delta).recorded_if_open(runtimes);
            at_row_of(
                s,
                t,
                runtimes,
                if i < 0 {
                    0
                } else if i >= n {
                    n - 1
                } else {
                    i
                },
            )
        }),
{
    reveal(at_row_of);
    lemma_few_rows(s, runtimes);
    lemma_moved(s, runtimes, delta);
    lemma_recorded(s.moved_selection(runtimes, delta), runtimes);
}

proof fn lemma_at_row_and_recorded(s: AppModel, runtimes: RegistryModel, row: usize)
    requires
        s.switcher.active,
        row < s.switcher_rows(runtimes).len(),
    ensures
        at_row_of(s, s.at_row(runtimes, row).recorded_if_open(runtimes), runtimes, row as int),
{
    reveal(at_row_of);
    lemma_at_row(s, runtimes, row);
    lemma_rows_depend(s, s.at_row(runtimes, row), runtimes);
    lemma_recorded(s.at_row(runtimes, row), runtimes);
}

// ---------------------------------------------------------------------------
// From keys to operations
// ---------------------------------------------------------------------------

pub(crate) proof fn lemma_search_means(key: KeyEvent, query_empty: bool, escape: ListAction, c: char)
    ensures
        up_in_search(key) ==> search_action(key, query_empty, escape) == ListAction::PreviousRow,
        down_in_search(key) ==> search_action(key, query_empty, escape) == ListAction::NextRow,
        key.code == KeyCode::Home ==> search_action(key, query_empty, escape)
            == ListAction::FirstRow,
        key.code == KeyCode::End ==> search_action(key, query_empty, escape) == ListAction::LastRow,
        key.code == KeyCode::PageDown ==> search_action(key, query_empty, escape)
            == ListAction::NextPage,
        key.code == KeyCode::PageUp ==> search_action(key, query_empty, escape)
            == ListAction::PreviousPage,
        key.code == KeyCode::Esc ==> search_action(key, query_empty, escape) == escape,
        key.code == KeyCode::Enter ==> search_action(key, query_empty, escape)
            == ListAction::Accept,
        key.code == KeyCode::Backspace ==> search_action(key, query_empty, escape)
            == ListAction::EraseChar,
        key.code == KeyCode::Char('u') && control_alone(key.modifiers) ==> search_action(
            key,
            query_empty,
            escape,
        ) == ListAction::EraseQuery,
        key.code == KeyCode::Char('c') && control_alone(key.modifiers) ==> search_action(
            key,
            query_empty,
            escape,
        ) == ListAction::Close,
        key.code == KeyCode::Char('q') && bare(key.modifiers) && query_empty ==> search_action(
            key,
            query_empty,
            escape,
        ) == ListAction::Close,
        types(key, c, query_empty) ==> search_action(key, query_empty, escape)
            == ListAction::TypeChar(c),
{
    reveal(search_action);
}

pub(crate) proof fn lemma_quick_means(key: KeyEvent, keybinds: CycleModel, wide: bool)
    ensures
        ({
            let action = quick_action(key, keybinds, wide);
            let early = key.code == KeyCode::Esc || key.code == KeyCode::Enter || (key.code
                == KeyCode::Char('c') && control_alone(key.modifiers));
            let plain = plain_command(keybinds, key);
            let shift = key.code == KeyCode::Modifier(ModifierKeyCode::LeftShift) || key.code
                == KeyCode::Modifier(ModifierKeyCode::RightShift);
            &&& key.code == KeyCode::Esc ==> action == ListAction::Close
            &&& key.code == KeyCode::Enter ==> action == ListAction::Accept
            &&& key.code == KeyCode::Char('c') && control_alone(key.modifiers) ==> action
                == ListAction::Close
            &&& !early && presses(key, keybinds.forward_combo()) ==> action
                == ListAction::CycleForward
            &&& !early && !presses(key, keybinds.forward_combo()) && presses(
                key,
                keybinds.backward_combo(),
            ) ==> action == ListAction::CycleBackward
            &&& plain && shift ==> action == ListAction::CycleBackward
            &&& plain && key.code == KeyCode::Char('s') ==> action == ListAction::EnterSearch
            &&& plain && (key.code == KeyCode::Char('l') || (wide && key.code == KeyCode::Right))
                ==> action == ListAction::Expand
            &&& plain && (key.code == KeyCode::Char('h') || (wide && key.code == KeyCode::Left))
                ==> action == ListAction::Collapse
            &&& plain && (key.code == KeyCode::Down || key.code == KeyCode::Char('j')) ==> action
                == ListAction::NextRow
            &&& plain && (key.code == KeyCode::Up || key.code == KeyCode::Char('k')) ==> action
                == ListAction::PreviousRow
            &&& plain && key.code == KeyCode::Home ==> action == ListAction::FirstRow
            &&& plain && key.code == KeyCode::End ==> action == ListAction::LastRow
            &&& wide && key.code == KeyCode::PageDown && !presses(key, keybinds.forward_combo())
                && !presses(key, keybinds.backward_combo()) ==> action == ListAction::NextPage
            &&& wide && key.code == KeyCode::PageUp && !presses(key, keybinds.forward_combo())
                && !presses(key, keybinds.backward_combo()) ==> action == ListAction::PreviousPage
        }),
{
    reveal(quick_action);
    assert(is_combo(key, keybinds.forward_combo()) == presses(key, keybinds.forward_combo()));
    assert(is_combo(key, keybinds.backward_combo()) == presses(key, keybinds.backward_combo()));
    assert(keybinds.is_command(key.modifiers) == commands(keybinds, key.modifiers));
}

#[verifier::rlimit(40)]
proof fn lemma_steps(s: AppModel, runtimes: RegistryModel)
    ensures
        s.performed(runtimes, ListAction::NextRow) == s.moved_selection(runtimes, 1),
        s.performed(runtimes, ListAction::PreviousRow) == s.moved_selection(runtimes, -1),
        s.performed(runtimes, ListAction::NextPage) == s.moved_selection(runtimes, s.page(runtimes)),
        s.performed(runtimes, ListAction::PreviousPage) == s.moved_selection(runtimes, -s.page(runtimes)),
        s.performed(runtimes, ListAction::FirstRow) == s.at_row(runtimes, 0),
        s.performed(runtimes, ListAction::LastRow) == s.at_row(runtimes, s.last_row(runtimes)),
{
    reveal(AppModel::performed);
    reveal(AppModel::stepped);
}

#[verifier::rlimit(40)]
proof fn lemma_walks(s: AppModel, runtimes: RegistryModel)
    ensures
        s.performed(runtimes, ListAction::CycleForward) == s.cycled_selection(runtimes, 1),
        s.performed(runtimes, ListAction::CycleBackward) == s.cycled_selection(runtimes, -1),
        s.performed(runtimes, ListAction::Expand) == s.expanded_selection(runtimes),
        s.performed(runtimes, ListAction::Collapse) == s.collapsed_selection(runtimes),
{
    reveal(AppModel::performed);
    reveal(AppModel::walked);
}

proof fn lemma_others(s: AppModel, runtimes: RegistryModel)
    ensures
        s.performed(runtimes, ListAction::Close) == s.switcher_closed(),
        s.performed(runtimes, ListAction::LeaveSearch) == s.search_left(runtimes),
        s.performed(runtimes, ListAction::EnterSearch) == s.search_entered(runtimes),
        s.performed(runtimes, ListAction::Accept) == s.accepted(runtimes),
        s.performed(runtimes, ListAction::Nothing) == s,
{
    reveal(AppModel::performed);
}

proof fn lemma_edits(s: AppModel, runtimes: RegistryModel, c: char)
    ensures
        s.performed(runtimes, ListAction::TypeChar(c)) == s.query_edited(
            runtimes,
            s.switcher.query.push(c),
        ),
        s.performed(runtimes, ListAction::EraseChar) == s.query_edited(
            runtimes,
            if s.switcher.query.len() > 0 {
                s.switcher.query.drop_last()
            } else {
                s.switcher.query
            },
        ),
        s.performed(runtimes, ListAction::EraseQuery) == s.query_edited(
            runtimes,
            Seq::<char>::empty(),
        ),
{
    reveal(AppModel::performed);
    reveal(AppModel::typed);
}

// ---------------------------------------------------------------------------
// Keys of a search
// ---------------------------------------------------------------------------

/// In a search, Up, `k` and control-P select the row above, Down, `j` and control-N the row below,
/// as far as there is one; Home selects the first row and End the last.
#[verifier::rlimit(40)]
pub proof fn lemma_search_row_keys(s: AppModel, runtimes: RegistryModel, key: KeyEvent)
    requires
        s.countable(),
        s.workspaces.len() <= usize::MAX,
        s.switcher.active,
        s.switcher.mode == WorkspaceSwitcherMode::Search,
        s.switcher.selected < s.switcher_rows(runtimes).len(),
    ensures
        ({
            let i = s.switcher.selected as int;
            let n = s.switcher_rows(runtimes).len() as int;
            let t = s.after_switcher_key(runtimes, key);
            &&& up_in_search(key) && i > 0 ==> at_row_of(s, t, runtimes, i - 1)
            &&& up_in_search(key) && i == 0 ==> at_row_of(s, t, runtimes, 0)
            &&& down_in_search(key) && i + 1 < n ==> at_row_of(s, t, runtimes, i + 1)
            &&& down_in_search(key) && i + 1 == n ==> at_row_of(s, t, runtimes, i)
            &&& key.code == KeyCode::Home ==> at_row_of(s, t, runtimes, 0)
            &&& key.code == KeyCode::End ==> at_row_of(s, t, runtimes, n - 1)
        }),
{
    let n = s.switcher_rows(runtimes).len() as int;
    lemma_search_means(key, s.switcher.query.len() == 0, ListAction::LeaveSearch, 'a');
    lemma_steps(s, runtimes);
    if up_in_search(key) {
        lemma_moved_and_recorded(s, runtimes, -1);
    } else if down_in_search(key) {
        lemma_moved_and_recorded(s, runtimes, 1);
    } else if key.code == KeyCode::Home {
        lemma_at_row_and_recorded(s, runtimes, 0);
    } else if key.code == KeyCode::End {
        lemma_last_row(s, runtimes);
        lemma_at_row_and_recorded(s, runtimes, (n - 1) as usize);
    }
}

/// In a search, the row below and then the row above lead back, and so do the row above and then
/// the row below, wherever there is such a row.
#[verifier::rlimit(40)]
pub proof fn lemma_search_row_keys_undo(
    s: AppModel,
    runtimes: RegistryModel,
    up: KeyEvent,
    down: KeyEvent,
)
    requires
        s.countable(),
        s.workspaces.len() <= usize::MAX,
        s.switcher.active,
        s.switcher.mode == WorkspaceSwitcherMode::Search,
        s.switcher.selected < s.switcher_rows(runtimes).len(),
        up_in_search(up),
        down_in_search(down),
    ensures
        s.switcher.selected + 1 < s.switcher_rows(runtimes).len() ==> s.after_switcher_key(
            runtimes,
            down,
        ).after_switcher_key(runtimes, up).switcher.selected == s.switcher.selected,
        s.switcher.selected > 0 ==> s.after_switcher_key(runtimes, up).after_switcher_key(
            runtimes,
            down,
        ).switcher.selected == s.switcher.selected,
{
    reveal(at_row_of);
    lemma_search_row_keys(s, runtimes, up);
    lemma_search_row_keys(s, runtimes, down);
    let below = s.after_switcher_key(runtimes, down);
    let above = s.after_switcher_key(runtimes, up);
    if s.switcher.selected + 1 < s.switcher_rows(runtimes).len() {
        lemma_still_countable(s, below);
        lemma_search_row_keys(below, runtimes, up);
    }
    if s.switcher.selected > 0 {
        lemma_still_countable(s, above);
        lemma_search_row_keys(above, runtimes, down);
    }
}

proof fn lemma_still_countable(s: AppModel, t: AppModel)
    requires
        s.countable(),
        t.workspaces == s.workspaces,
        t.switcher.candidates == s.switcher.candidates,
    ensures
        t.countable(),
{
    reveal(AppModel::countable);
}

/// A page key goes as many rows as the window shows completely, one at least, as far as there are
/// rows.
pub proof fn lemma_page_keys(s: AppModel, runtimes: RegistryModel, key: KeyEvent)
    requires
        s.countable(),
        s.workspaces.len() <= usize::MAX,
        s.switcher.active,
        s.switcher.selected < s.switcher_rows(runtimes).len(),
        s.switcher.mode == WorkspaceSwitcherMode::QuickSwitch ==> !presses(
            key,
            s.keybinds.switcher.forward_combo(),
        ) && !presses(key, s.keybinds.switcher.backward_combo()),
    ensures
        ({
            let i = s.switcher.selected as int;
            let n = s.switcher_rows(runtimes).len() as int;
            let seen = s.row_layout(runtimes).visible_count_at(s.switcher.scroll as int) as int;
            let page = if seen == 0 {
                1
            } else {
                seen
            };
            let t = s.after_switcher_key(runtimes, key);
            &&& key.code == KeyCode::PageDown && i + page < n ==> at_row_of(
                s,
                t,
                runtimes,
                i + page,
            )
            &&& key.code == KeyCode::PageDown && i + page >= n ==> at_row_of(s, t, runtimes, n - 1)
            &&& key.code == KeyCode::PageUp && i >= page ==> at_row_of(s, t, runtimes, i - page)
            &&& key.code == KeyCode::PageUp && i < page ==> at_row_of(s, t, runtimes, 0)
        }),
{
    lemma_search_means(key, s.switcher.query.len() == 0, ListAction::LeaveSearch, 'a');
    lemma_quick_means(key, s.keybinds.switcher, true);
    lemma_steps(s, runtimes);
    assert(s.page(runtimes) == crate::row_layout::max_page(
        s.row_layout(runtimes),
        s.switcher.scroll as int,
    )) by {
        reveal(AppModel::page);
    }
    let page = s.page(runtimes);
    if key.code == KeyCode::PageDown {
        lemma_moved_and_recorded(s, runtimes, page);
    } else if key.code == KeyCode::PageUp {
        lemma_moved_and_recorded(s, runtimes, -page);
    }
}

/// Whether `t` is `s` with the query `query`, and the selection still on its row or, where the list
/// has become too short, on the last one.
#[verifier::opaque]
pub open spec fn searches_for(
    s: AppModel,
    t: AppModel,
    runtimes: RegistryModel,
    query: Seq<char>,
) -> bool {
    let n = t.switcher_rows(runtimes).len() as int;
    let i = s.switcher.selected as int;
    &&& t.switcher.query == query
    &&& t.switcher.mode == WorkspaceSwitcherMode::Search
    &&& t.switcher.active
    &&& t.switcher.candidates == s.switcher.candidates
    &&& t.workspaces == s.workspaces
    &&& t.active == s.active
    &&& t.mru == s.mru
    &&& i < n ==> t.switcher.selected == i
    &&& 0 < n <= i ==> t.switcher.selected == n - 1
    &&& n == 0 ==> t.switcher.selected == 0
    &&& n > 0 ==> t.switcher.selected_target == Some(
        t.switcher_rows(runtimes)[t.switcher.selected as int].target,
    )
}

proof fn lemma_edited_and_recorded(s: AppModel, runtimes: RegistryModel, query: Seq<char>)
    requires
        s.switcher.active,
        s.switcher.mode == WorkspaceSwitcherMode::Search,
    ensures
        searches_for(
            s,
            s.query_edited(runtimes, query).recorded_if_open(runtimes),
            runtimes,
            query,
        ),
{
    reveal(searches_for);
    lemma_edited(s, runtimes, query);
    lemma_recorded(s.query_edited(runtimes, query), runtimes);
}

/// In a search, characters go behind the query, Backspace takes the last one off, and control-U all
/// of them.
pub proof fn lemma_query_keys(s: AppModel, runtimes: RegistryModel, key: KeyEvent, c: char)
    requires
        s.switcher.active,
        s.switcher.mode == WorkspaceSwitcherMode::Search,
    ensures
        ({
            let t = s.after_switcher_key(runtimes, key);
            let query = s.switcher.query;
            &&& types(key, c, query.len() == 0) ==> searches_for(s, t, runtimes, query + seq![c])
            &&& key.code == KeyCode::Backspace && query.len() > 0 ==> searches_for(
                s,
                t,
                runtimes,
                query.take(query.len() - 1),
            )
            &&& key.code == KeyCode::Backspace && query.len() == 0 ==> searches_for(
                s,
                t,
                runtimes,
                query,
            )
            &&& key.code == KeyCode::Char('u') && control_alone(key.modifiers) ==> searches_for(
                s,
                t,
                runtimes,
                Seq::<char>::empty(),
            )
        }),
{
    let query = s.switcher.query;
    lemma_search_means(key, query.len() == 0, ListAction::LeaveSearch, c);
    lemma_edits(s, runtimes, c);
    if types(key, c, query.len() == 0) {
        assert(query.push(c) =~= query + seq![c]);
        lemma_edited_and_recorded(s, runtimes, query.push(c));
    } else if key.code == KeyCode::Backspace {
        if query.len() > 0 {
            assert(query.drop_last() =~= query.take(query.len() - 1));
            lemma_edited_and_recorded(s, runtimes, query.drop_last());
        } else {
            lemma_edited_and_recorded(s, runtimes, query);
        }
    } else if key.code == KeyCode::Char('u') && control_alone(key.modifiers) {
        lemma_edited_and_recorded(s, runtimes, Seq::<char>::empty());
    }
}

/// Typing a character and erasing it leaves the query as it was.
pub proof fn lemma_type_then_erase(
    s: AppModel,
    runtimes: RegistryModel,
    key: KeyEvent,
    erase: KeyEvent,
    c: char,
)
    requires
        s.switcher.active,
        s.switcher.mode == WorkspaceSwitcherMode::Search,
        types(key, c, s.switcher.query.len() == 0),
        erase.code == KeyCode::Backspace,
    ensures
        s.after_switcher_key(runtimes, key).after_switcher_key(runtimes, erase).switcher.query
            == s.switcher.query,
{
    reveal(searches_for);
    let query = s.switcher.query;
    lemma_query_keys(s, runtimes, key, c);
    lemma_query_keys(s.after_switcher_key(runtimes, key), runtimes, erase, c);
    assert((query + seq![c]).take(query.len() as int) =~= query);
}

/// Whether the switcher of `t` is closed, with the workspaces and the active one of `s`, and the
/// keyboard with the terminal of the active workspace where there is one.
#[verifier::opaque]
pub open spec fn closes(s: AppModel, t: AppModel) -> bool {
    &&& !t.switcher.active
    &&& t.workspaces == s.workspaces
    &&& t.active == s.active
    &&& t.mru == s.mru
    &&& s.active is Some ==> t.mode == Mode::Terminal
    &&& s.active is None ==> t.mode == Mode::Navigate
    &&& t.switcher.candidates.len() == 0
    &&& t.switcher.selected_target is None
}

/// In a search, control-C closes the switcher, and so does `q` where there is no query. Escape goes
/// back to quick switching without a query.
#[verifier::rlimit(40)]
pub proof fn lemma_search_end_keys(s: AppModel, runtimes: RegistryModel, key: KeyEvent)
    requires
        s.switcher.active,
        s.switcher.mode == WorkspaceSwitcherMode::Search,
    ensures
        ({
            let t = s.after_switcher_key(runtimes, key);
            &&& key.code == KeyCode::Char('c') && control_alone(key.modifiers) ==> closes(s, t)
            &&& key.code == KeyCode::Char('q') && bare(key.modifiers) && s.switcher.query.len() == 0
                ==> closes(s, t)
            &&& key.code == KeyCode::Esc ==> {
                &&& t.switcher.active
                &&& t.switcher.mode == WorkspaceSwitcherMode::QuickSwitch
                &&& t.switcher.query.len() == 0
                &&& t.switcher.candidates.len() == 0
                &&& t.workspaces == s.workspaces
                &&& t.active == s.active
                &&& t.mru == s.mru
            }
        }),
{
    lemma_search_means(key, s.switcher.query.len() == 0, ListAction::LeaveSearch, 'a');
    lemma_others(s, runtimes);
    reveal(closes);
    crate::switcher_laws::lemma_closed(s);
    if key.code == KeyCode::Esc {
        reveal(AppModel::search_left);
        lemma_clamped(s.search_ended(), runtimes);
        lemma_recorded(s.search_left(runtimes), runtimes);
    }
}

// ---------------------------------------------------------------------------
// Keys of quick switching
// ---------------------------------------------------------------------------

/// While quick switching, Up and `k` select the row above and Down and `j` the row below, as far as
/// there is one, with the modifiers of the binding held or with none; Home selects the first row
/// and End the last.
#[verifier::rlimit(40)]
pub proof fn lemma_quick_row_keys(s: AppModel, runtimes: RegistryModel, key: KeyEvent)
    requires
        s.countable(),
        s.workspaces.len() <= usize::MAX,
        s.switcher.active,
        s.switcher.mode == WorkspaceSwitcherMode::QuickSwitch,
        s.switcher.selected < s.switcher_rows(runtimes).len(),
        plain_command(s.keybinds.switcher, key),
    ensures
        ({
            let i = s.switcher.selected as int;
            let n = s.switcher_rows(runtimes).len() as int;
            let t = s.after_switcher_key(runtimes, key);
            let up = key.code == KeyCode::Up || key.code == KeyCode::Char('k');
            let down = key.code == KeyCode::Down || key.code == KeyCode::Char('j');
            &&& up && i > 0 ==> at_row_of(s, t, runtimes, i - 1)
            &&& up && i == 0 ==> at_row_of(s, t, runtimes, 0)
            &&& down && i + 1 < n ==> at_row_of(s, t, runtimes, i + 1)
            &&& down && i + 1 == n ==> at_row_of(s, t, runtimes, i)
            &&& key.code == KeyCode::Home ==> at_row_of(s, t, runtimes, 0)
            &&& key.code == KeyCode::End ==> at_row_of(s, t, runtimes, n - 1)
        }),
{
    let n = s.switcher_rows(runtimes).len() as int;
    lemma_quick_means(key, s.keybinds.switcher, true);
    lemma_steps(s, runtimes);
    if key.code == KeyCode::Up || key.code == KeyCode::Char('k') {
        lemma_moved_and_recorded(s, runtimes, -1);
    } else if key.code == KeyCode::Down || key.code == KeyCode::Char('j') {
        lemma_moved_and_recorded(s, runtimes, 1);
    } else if key.code == KeyCode::Home {
        lemma_at_row_and_recorded(s, runtimes, 0);
    } else if key.code == KeyCode::End {
        lemma_last_row(s, runtimes);
        lemma_at_row_and_recorded(s, runtimes, (n - 1) as usize);
    }
}

/// While quick switching, the binding goes to the next workspace and the backward binding to the
/// one before, round and round; so does a shift key, backward, with the modifiers of the binding.
pub proof fn lemma_cycle_keys(s: AppModel, runtimes: RegistryModel, key: KeyEvent, k: int)
    requires
        s.countable(),
        s.workspaces.len() <= usize::MAX,
        s.switcher.candidates.len() <= usize::MAX,
        s.switcher.active,
        s.switcher.mode == WorkspaceSwitcherMode::QuickSwitch,
        cycles_from(s.switcher_rows(runtimes), s.switcher.selected, k),
        key.code != KeyCode::Esc,
        key.code != KeyCode::Enter,
        !(key.code == KeyCode::Char('c') && control_alone(key.modifiers)),
    ensures
        ({
            let rows = s.switcher_rows(runtimes);
            let places = workspace_positions(rows, rows.len());
            let n = places.len() as int;
            let t = s.after_switcher_key(runtimes, key);
            let forward = presses(key, s.keybinds.switcher.forward_combo());
            let backward = !forward && presses(key, s.keybinds.switcher.backward_combo());
            let shift = plain_command(s.keybinds.switcher, key) && (key.code == KeyCode::Modifier(
                ModifierKeyCode::LeftShift,
            ) || key.code == KeyCode::Modifier(ModifierKeyCode::RightShift));
            &&& forward ==> at_row_of(
                s,
                t,
                runtimes,
                places[if k + 1 < n {
                    k + 1
                } else {
                    0
                }] as int,
            )
            &&& backward || shift ==> at_row_of(
                s,
                t,
                runtimes,
                places[if k > 0 {
                    k - 1
                } else {
                    n - 1
                }] as int,
            )
        }),
{
    lemma_quick_means(key, s.keybinds.switcher, true);
    lemma_walks(s, runtimes);
    if presses(key, s.keybinds.switcher.forward_combo()) {
        lemma_cycled_and_recorded(s, runtimes, 1, k);
    } else {
        lemma_cycled_and_recorded(s, runtimes, -1, k);
    }
}

/// While quick switching, Escape and control-C close the switcher.
pub proof fn lemma_quick_close_keys(s: AppModel, runtimes: RegistryModel, key: KeyEvent)
    requires
        s.switcher.active,
        s.switcher.mode == WorkspaceSwitcherMode::QuickSwitch,
        key.code == KeyCode::Esc || (key.code == KeyCode::Char('c') && control_alone(
            key.modifiers,
        )),
    ensures
        closes(s, s.after_switcher_key(runtimes, key)),
{
    lemma_quick_means(key, s.keybinds.switcher, true);
    lemma_others(s, runtimes);
    reveal(closes);
    crate::switcher_laws::lemma_closed(s);
}

/// While quick switching, `s` starts a search without a query at the first row, in a session of
/// its own.
#[verifier::rlimit(40)]
pub proof fn lemma_search_key(s: AppModel, runtimes: RegistryModel, key: KeyEvent)
    requires
        s.switcher.active,
        s.switcher.mode == WorkspaceSwitcherMode::QuickSwitch,
        plain_command(s.keybinds.switcher, key),
        key.code == KeyCode::Char('s'),
    ensures
        ({
            let t = s.after_switcher_key(runtimes, key);
            &&& t.switcher.active
            &&& t.switcher.mode == WorkspaceSwitcherMode::Search
            &&& t.switcher.query.len() == 0
            &&& t.switcher.selected == 0
            &&& t.switcher.candidates.len() == 0
            &&& t.switcher.expanded == Set::<Seq<char>>::empty()
            &&& t.workspaces == s.workspaces
            &&& t.active == s.active
            &&& t.mru == s.mru
        }),
{
    lemma_quick_means(key, s.keybinds.switcher, true);
    lemma_others(s, runtimes);
    reveal(AppModel::search_entered);
    lemma_clamped(s.search_started(), runtimes);
    lemma_recorded(s.search_entered(runtimes), runtimes);
}

/// While quick switching, `l` and Right show the tabs of the selected workspace, and `h` and Left
/// hide those of the workspace that the selected row belongs to; other workspaces stay as they are.
pub proof fn lemma_tab_keys(s: AppModel, runtimes: RegistryModel, key: KeyEvent, w: usize)
    requires
        s.switcher.active,
        s.switcher.mode == WorkspaceSwitcherMode::QuickSwitch,
        plain_command(s.keybinds.switcher, key),
        s.switcher.selected < s.switcher_rows(runtimes).len(),
        s.switcher_rows(runtimes)[s.switcher.selected as int].ws_idx == w,
        !s.switcher_rows(runtimes)[s.switcher.selected as int].is_directory,
        w < s.workspaces.len(),
    ensures
        ({
            let t = s.after_switcher_key(runtimes, key);
            let id = s.workspaces[w as int].id;
            let show = key.code == KeyCode::Char('l') || key.code == KeyCode::Right;
            let hide = key.code == KeyCode::Char('h') || key.code == KeyCode::Left;
            &&& show ==> shows_tabs_of(s, t, s.switcher.expanded.insert(id))
            &&& hide ==> shows_tabs_of(s, t, s.switcher.expanded.remove(id))
        }),
{
    lemma_quick_means(key, s.keybinds.switcher, true);
    lemma_walks(s, runtimes);
    if key.code == KeyCode::Char('l') || key.code == KeyCode::Right {
        lemma_expanded_and_recorded(s, runtimes, w);
    } else if key.code == KeyCode::Char('h') || key.code == KeyCode::Left {
        lemma_collapsed_and_recorded(s, runtimes, w);
    }
}

// ---------------------------------------------------------------------------
// Acceptance
// ---------------------------------------------------------------------------

proof fn lemma_tab_from(tabs: Seq<crate::workspace::TabModel>, id: Seq<char>, from: int)
    requires
        0 <= from,
        tabs.len() <= usize::MAX,
    ensures
        match tab_from(tabs, id, from) {
            Some(i) => from <= i < tabs.len() && tabs[i as int].tab_id == id,
            None => forall|k: int| from <= k < tabs.len() ==> (#[trigger] tabs[k]).tab_id != id,
        },
    decreases tabs.len() - from,
{
    if from < tabs.len() && tabs[from].tab_id != id {
        lemma_tab_from(tabs, id, from + 1);
    }
}

proof fn lemma_tab_in_workspaces(s: AppModel, id: Seq<char>, from: int)
    requires
        0 <= from,
        s.workspaces.len() <= usize::MAX,
        forall|w: int| 0 <= w < s.workspaces.len() ==> (#[trigger] s.workspaces[w]).tabs.len()
            <= usize::MAX,
    ensures
        match tab_in_workspaces(s.workspaces, id, from) {
            Some((w, t)) => from <= w < s.workspaces.len() && t < s.workspaces[w as int].tabs.len()
                && s.workspaces[w as int].tabs[t as int].tab_id == id,
            None => forall|w: int, t: int|
                from <= w < s.workspaces.len() && 0 <= t < s.workspaces[w].tabs.len() ==> (
                #[trigger] s.workspaces[w].tabs[t]).tab_id != id,
        },
    decreases s.workspaces.len() - from,
{
    if from < s.workspaces.len() {
        assert(s.workspaces[from].tabs.len() <= usize::MAX);
        lemma_tab_from(s.workspaces[from].tabs, id, 0);
        if tab_from(s.workspaces[from].tabs, id, 0) is None {
            lemma_tab_in_workspaces(s, id, from + 1);
            assert forall|w: int, t: int|
                tab_in_workspaces(s.workspaces, id, from) is None && from <= w
                    < s.workspaces.len() && 0 <= t < s.workspaces[w].tabs.len() implies (
            #[trigger] s.workspaces[w].tabs[t]).tab_id != id by {
                if w == from {
                    assert(s.workspaces[from].tabs[t].tab_id != id);
                }
            }
        }
    }
}

proof fn lemma_enter_means(s: AppModel, key: KeyEvent)
    requires
        key.code == KeyCode::Enter,
    ensures
        s.switcher_action(key) == ListAction::Accept,
{
    reveal(search_action);
    reveal(quick_action);
}

/// Enter goes to the workspace that is recorded as selected: it becomes the active and most recently
/// used one, and the switcher is gone. An id that no workspace has any more changes nothing.
#[verifier::rlimit(40)]
pub proof fn lemma_enter_workspace(
    s: AppModel,
    runtimes: RegistryModel,
    key: KeyEvent,
    id: Seq<char>,
    w: int,
)
    requires
        s.workspaces.len() <= usize::MAX,
        key.code == KeyCode::Enter,
        s.switcher.active,
        s.switcher.pending is None,
        s.switcher.selected_target == Some(TargetModel::Workspace { workspace_id: id }),
        0 <= w < s.workspaces.len(),
        s.workspaces[w].id == id,
    ensures
        ({
            let t = s.after_switcher_key(runtimes, key);
            &&& t.active is Some
            &&& t.active->0 < t.workspaces.len()
            &&& t.workspaces[t.active->0 as int].id == id
            &&& t.mru.len() > 0
            &&& t.mru[0] == id
            &&& t.workspaces == s.workspaces
            &&& t.mode == Mode::Terminal
            &&& !t.switcher.active
        }),
{
    lemma_enter_means(s, key);
    lemma_others(s, runtimes);
    lemma_workspace_from(s.workspaces, id, 0);
    assert(s.accepts(runtimes)) by {
        reveal(AppModel::accepts);
    }
    lemma_accepted_by_identity(s, runtimes, id);
    assert(s.accepted(runtimes).mru.len() > 0) by {
        reveal(AppModel::accepted);
        reveal(AppModel::focused_target);
    }
}

/// Enter goes to the tab that is recorded as selected: its workspace becomes the active one, with
/// this tab on top, and no other tab or workspace changes.
#[verifier::rlimit(40)]
pub proof fn lemma_enter_tab(
    s: AppModel,
    runtimes: RegistryModel,
    key: KeyEvent,
    id: Seq<char>,
    w: int,
    i: int,
)
    requires
        s.workspaces.len() <= usize::MAX,
        forall|w: int| 0 <= w < s.workspaces.len() ==> (#[trigger] s.workspaces[w]).tabs.len()
            <= usize::MAX,
        key.code == KeyCode::Enter,
        s.switcher.active,
        s.switcher.pending is None,
        s.switcher.selected_target == Some(TargetModel::Tab { tab_id: id }),
        0 <= w < s.workspaces.len(),
        0 <= i < s.workspaces[w].tabs.len(),
        s.workspaces[w].tabs[i].tab_id == id,
    ensures
        ({
            let t = s.after_switcher_key(runtimes, key);
            &&& t.active is Some
            &&& t.active->0 < t.workspaces.len()
            &&& t.workspaces.len() == s.workspaces.len()
            &&& ({
                let ws = t.workspaces[t.active->0 as int];
                &&& ws.active_tab < ws.tabs.len()
                &&& ws.tabs[ws.active_tab as int].tab_id == id
                &&& ws.tabs == s.workspaces[t.active->0 as int].tabs
                &&& ws.id == s.workspaces[t.active->0 as int].id
                &&& t.mru.len() > 0
                &&& t.mru[0] == ws.id
            })
            &&& forall|k: int|
                0 <= k < s.workspaces.len() && k != t.active->0 ==> #[trigger] t.workspaces[k]
                    == s.workspaces[k]
            &&& t.mode == Mode::Terminal
            &&& !t.switcher.active
        }),
{
    lemma_others(s, runtimes);
    lemma_tab_in_workspaces(s, id, 0);
    assert(s.workspaces[w].tabs[i].tab_id == id);
    let at = tab_in_workspaces(s.workspaces, id, 0)->0;
    let t = s.switched_tab(at.0, at.1).switcher_done();
    lemma_enter_means(s, key);
    assert(s.accepted(runtimes) == t) by {
        reveal(AppModel::accepted);
        reveal(AppModel::focused_target);
    }
    assert(s.after_switcher_key(runtimes, key) == t);
}

/// Enter on a directory records it to be opened: the switcher stays open, and no workspace changes.
/// While one is being opened, Enter changes nothing but what is recorded as selected.
#[verifier::rlimit(40)]
pub proof fn lemma_enter_directory(
    s: AppModel,
    runtimes: RegistryModel,
    key: KeyEvent,
    shown_path: Seq<char>,
    canonical_path: Seq<char>,
)
    requires
        key.code == KeyCode::Enter,
        s.switcher.active,
        s.switcher.selected_target == Some(TargetModel::Directory { shown_path, canonical_path }),
    ensures
        ({
            let t = s.after_switcher_key(runtimes, key);
            &&& t.switcher.active
            &&& t.workspaces == s.workspaces
            &&& t.active == s.active
            &&& t.mru == s.mru
            &&& t.switcher.query == s.switcher.query
            &&& t.switcher.mode == s.switcher.mode
            &&& t.switcher.selected == s.switcher.selected
            &&& t.switcher.pending is Some
            &&& s.switcher.pending is None ==> t.switcher.pending->0.shown_path == shown_path
                && t.switcher.pending->0.canonical_path == canonical_path
            &&& s.switcher.pending is Some ==> t.switcher.pending == s.switcher.pending
        }),
{
    lemma_enter_means(s, key);
    lemma_others(s, runtimes);
    if s.switcher.pending is Some {
        reveal(AppModel::accepted);
        lemma_recorded(s, runtimes);
    } else {
        let pending = crate::state::PendingModel { shown_path, canonical_path };
        let m = s.with_pending(pending);
        assert(s.accepted(runtimes) == m.with_preview(runtimes)) by {
            reveal(AppModel::accepted);
            reveal(AppModel::accepted_directory);
        }
        lemma_preview_keeps(m, runtimes);
        assert(m.with_preview(runtimes).switcher.pending == Some(pending)) by {
            reveal(AppModel::with_preview);
        }
        lemma_recorded(m.with_preview(runtimes), runtimes);
    }
}

// ---------------------------------------------------------------------------
// The mouse
// ---------------------------------------------------------------------------

/// The mouse selects the row that it moves over, and nothing where it is over none.
pub proof fn lemma_hover(s: AppModel, runtimes: RegistryModel, mouse: MouseEvent)
    requires
        s.switcher.active,
        mouse.kind == MouseEventKind::Moved,
        s.switcher.selected < s.switcher_rows(runtimes).len() <= usize::MAX,
    ensures
        ({
            let t = s.after_switcher_mouse(runtimes, mouse);
            let row = s.row_at(runtimes, mouse.column, mouse.row);
            &&& row is Some && 0 <= row->0 < s.switcher_rows(runtimes).len() ==> at_row_of(
                s,
                t,
                runtimes,
                row->0,
            )
            &&& row is None ==> at_row_of(s, t, runtimes, s.switcher.selected as int)
        }),
{
    reveal(at_row_of);
    reveal(AppModel::hovered);
    lemma_recorded(s, runtimes);
    match s.row_at(runtimes, mouse.column, mouse.row) {
        Some(i) => {
            if 0 <= i < s.switcher_rows(runtimes).len() {
                lemma_at_row_and_recorded(s, runtimes, i as usize);
            }
        },
        None => {},
    }
}

proof fn lemma_wheeled_and_recorded(s: AppModel, runtimes: RegistryModel, scroll: usize)
    requires
        s.switcher.active,
        0 < s.switcher_rows(runtimes).len() <= usize::MAX,
    ensures
        ({
            let n = s.switcher_rows(runtimes).len() as int;
            at_row_of(
                s,
                s.wheeled(runtimes, scroll).recorded_if_open(runtimes),
                runtimes,
                if scroll < n {
                    scroll as int
                } else {
                    n - 1
                },
            )
        }),
{
    reveal(at_row_of);
    let m = s.with_scroll(scroll).with_selected(scroll);
    assert(s.wheeled(runtimes, scroll) == m.clamped_selection(runtimes)) by {
        reveal(AppModel::wheeled);
    }
    lemma_rows_depend(s, m, runtimes);
    lemma_clamped(m, runtimes);
    lemma_recorded(m.clamped_selection(runtimes), runtimes);
}

/// The wheel scrolls the list by three rows, as far as it goes, and selects the row at the top.
#[verifier::rlimit(40)]
pub proof fn lemma_wheel(s: AppModel, runtimes: RegistryModel, mouse: MouseEvent)
    requires
        s.switcher.active,
        0 < s.switcher_rows(runtimes).len() <= usize::MAX,
        s.row_layout(runtimes).wf(),
        s.row_layout(runtimes).rows() == s.switcher_rows(runtimes).len(),
    ensures
        ({
            let t = s.after_switcher_mouse(runtimes, mouse);
            let n = s.switcher_rows(runtimes).len() as int;
            let last = s.row_layout(runtimes).max_scroll();
            let down = s.switcher.scroll + 3;
            let up = s.switcher.scroll - 3;
            &&& mouse.kind == MouseEventKind::ScrollDown && down <= last ==> at_row_of(
                s,
                t,
                runtimes,
                down,
            )
            &&& mouse.kind == MouseEventKind::ScrollDown && down > last ==> at_row_of(
                s,
                t,
                runtimes,
                last,
            )
            &&& mouse.kind == MouseEventKind::ScrollUp && 0 <= up < n ==> at_row_of(
                s,
                t,
                runtimes,
                up,
            )
            &&& mouse.kind == MouseEventKind::ScrollUp && up < 0 ==> at_row_of(s, t, runtimes, 0)
            &&& mouse.kind == MouseEventKind::ScrollUp && up >= n ==> at_row_of(
                s,
                t,
                runtimes,
                n - 1,
            )
        }),
{
    let last = s.row_layout(runtimes).max_scroll();
    lemma_max_scroll_is_a_row(s.row_layout(runtimes));
    let down = s.switcher.scroll + 3;
    let up = s.switcher.scroll - 3;
    if mouse.kind == MouseEventKind::ScrollDown {
        lemma_wheeled_and_recorded(
            s,
            runtimes,
            if down <= last {
                down as usize
            } else {
                last as usize
            },
        );
    } else if mouse.kind == MouseEventKind::ScrollUp {
        lemma_wheeled_and_recorded(
            s,
            runtimes,
            if up < 0 {
                0
            } else {
                up as usize
            },
        );
    }
}

/// A click on the close button closes the switcher, and so does one outside the popup. One on the
/// popup beside the rows changes nothing but what is recorded as selected.
#[verifier::rlimit(40)]
pub proof fn lemma_click_beside(s: AppModel, runtimes: RegistryModel, mouse: MouseEvent)
    requires
        s.switcher.active,
        mouse.kind == MouseEventKind::Down(MouseButton::Left),
        s.row_at(runtimes, mouse.column, mouse.row) is None || covers(
            switcher_layout(s.view, s.switcher.mode.searches()).close,
            mouse.column as int,
            mouse.row as int,
        ),
    ensures
        ({
            let t = s.after_switcher_mouse(runtimes, mouse);
            let layout = switcher_layout(s.view, s.switcher.mode.searches());
            let (x, y) = (mouse.column as int, mouse.row as int);
            &&& covers(layout.close, x, y) || !covers(layout.popup, x, y) ==> closes(s, t)
            &&& !covers(layout.close, x, y) && covers(layout.popup, x, y) ==> selects_alike(s, t)
        }),
{
    reveal(closes);
    reveal(AppModel::clicked);
    crate::switcher_laws::lemma_closed(s);
    lemma_recorded(s, runtimes);
}

/// A click on the row of a workspace goes to it.
#[verifier::rlimit(40)]
pub proof fn lemma_click_workspace(
    s: AppModel,
    runtimes: RegistryModel,
    mouse: MouseEvent,
    i: int,
    id: Seq<char>,
    w: int,
)
    requires
        s.workspaces.len() <= usize::MAX,
        s.switcher.active,
        s.switcher.pending is None,
        mouse.kind == MouseEventKind::Down(MouseButton::Left),
        !covers(
            switcher_layout(s.view, s.switcher.mode.searches()).close,
            mouse.column as int,
            mouse.row as int,
        ),
        s.row_at(runtimes, mouse.column, mouse.row) == Some(i),
        0 <= i < s.switcher_rows(runtimes).len() <= usize::MAX,
        s.switcher_rows(runtimes)[i].target == (TargetModel::Workspace { workspace_id: id }),
        0 <= w < s.workspaces.len(),
        s.workspaces[w].id == id,
    ensures
        ({
            let t = s.after_switcher_mouse(runtimes, mouse);
            &&& t.active is Some
            &&& t.active->0 < t.workspaces.len()
            &&& t.workspaces[t.active->0 as int].id == id
            &&& t.workspaces == s.workspaces
            &&& t.mode == Mode::Terminal
            &&& !t.switcher.active
        }),
{
    let m = s.with_selected(i as usize);
    let r = m.with_target(runtimes);
    lemma_rows_depend(s, m, runtimes);
    lemma_recorded(m, runtimes);
    lemma_workspace_from(s.workspaces, id, 0);
    assert(r.accepts(runtimes)) by {
        reveal(AppModel::accepts);
    }
    lemma_accepted_by_identity(r, runtimes, id);
    assert(s.after_switcher_mouse(runtimes, mouse) == r.accepted(runtimes)) by {
        reveal(AppModel::clicked);
        reveal(AppModel::row_clicked);
    }
}

} // verus!
