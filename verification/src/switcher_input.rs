//! Keys and mouse events for the workspace switcher.

use vstd::prelude::*;
use crate::actions::{
    quick_action, quick_key_action, search_action, search_key_action, ListAction,
};
use crate::geometry::{covers, minus, rect_contains, smaller, switcher_layout};
use crate::input::{
    direct_combos_bare, quick_switch_modifier_release_matches, release_matches, KeyCode, KeyEvent,
    KeyModifiers, MouseButton, MouseEvent, MouseEventKind, TerminalKey,
};
use crate::navigation::lemma_limits_kept;
use crate::row_layout::max_page;
use crate::state::{AppModel, AppState, SwitcherModel, WorkspaceSwitcherMode};
use crate::switcher_session::close_workspace_switcher;
use crate::terminal::{RegistryModel, TerminalRuntimeRegistry};
use crate::text::without_last;

verus! {

impl AppModel {
    /// The state with another query.
    pub open spec fn with_query(self, query: Seq<char>) -> AppModel {
        self.with_switcher(SwitcherModel { query, ..self.switcher })
    }

    /// The state after an edit of the query.
    #[verifier::opaque]
    pub open spec fn query_edited(self, runtimes: RegistryModel, query: Seq<char>) -> AppModel {
        self.with_query(query).clamped_selection(runtimes)
    }

    /// The state with row `row` selected and shown.
    #[verifier::opaque]
    pub open spec fn at_row(self, runtimes: RegistryModel, row: usize) -> AppModel {
        self.with_selected(row).scrolled_to_selection(runtimes).with_preview(runtimes)
    }

    /// The last row.
    #[verifier::opaque]
    pub open spec fn last_row(self, runtimes: RegistryModel) -> usize {
        minus(self.switcher_rows(runtimes).len() as int, 1) as usize
    }

    /// The number of rows that a page holds at the current scroll offset.
    #[verifier::opaque]
    pub open spec fn page(self, runtimes: RegistryModel) -> int {
        max_page(self.row_layout(runtimes), self.switcher.scroll as int)
    }

    /// What a key means: in a search the escape key leads back to quick switching.
    pub open spec fn switcher_action(self, key: KeyEvent) -> ListAction {
        if self.switcher.mode == WorkspaceSwitcherMode::QuickSwitch {
            quick_action(key, self.keybinds.switcher, true)
        } else {
            search_action(key, self.switcher.query.len() == 0, ListAction::LeaveSearch)
        }
    }

    /// The state after an action that goes to another row.
    #[verifier::opaque]
    pub open spec fn stepped(self, runtimes: RegistryModel, action: ListAction) -> AppModel {
        match action {
            ListAction::NextRow => self.moved_selection(runtimes, 1),
            ListAction::PreviousRow => self.moved_selection(runtimes, -1),
            ListAction::NextPage => self.moved_selection(runtimes, self.page(runtimes)),
            ListAction::PreviousPage => self.moved_selection(runtimes, -self.page(runtimes)),
            ListAction::FirstRow => self.at_row(runtimes, 0),
            _ => self.at_row(runtimes, self.last_row(runtimes)),
        }
    }

    /// The state after an action that goes to another workspace or shows or hides tabs.
    #[verifier::opaque]
    pub open spec fn walked(self, runtimes: RegistryModel, action: ListAction) -> AppModel {
        match action {
            ListAction::CycleForward => self.cycled_selection(runtimes, 1),
            ListAction::CycleBackward => self.cycled_selection(runtimes, -1),
            ListAction::Expand => self.expanded_selection(runtimes),
            _ => self.collapsed_selection(runtimes),
        }
    }

    /// The state after an action that edits the query.
    #[verifier::opaque]
    pub open spec fn typed(self, runtimes: RegistryModel, action: ListAction) -> AppModel {
        match action {
            ListAction::EraseChar => self.query_edited(
                runtimes,
                without_last(self.switcher.query),
            ),
            ListAction::TypeChar(c) => self.query_edited(runtimes, self.switcher.query.push(c)),
            _ => self.query_edited(runtimes, Seq::<char>::empty()),
        }
    }

    /// The state after an action.
    #[verifier::opaque]
    pub open spec fn performed(self, runtimes: RegistryModel, action: ListAction) -> AppModel {
        match action {
            ListAction::Nothing => self,
            ListAction::Close => self.switcher_closed(),
            ListAction::LeaveSearch => self.search_left(runtimes),
            ListAction::EnterSearch => self.search_entered(runtimes),
            ListAction::Accept => self.accepted(runtimes),
            ListAction::EraseChar | ListAction::EraseQuery | ListAction::TypeChar(_) => self.typed(
                runtimes,
                action,
            ),
            ListAction::CycleForward | ListAction::CycleBackward | ListAction::Expand
            | ListAction::Collapse => self.walked(runtimes, action),
            _ => self.stepped(runtimes, action),
        }
    }

    /// The state with the target recorded where the switcher is still open.
    pub open spec fn recorded_if_open(self, runtimes: RegistryModel) -> AppModel {
        if self.switcher.active {
            self.with_target(runtimes)
        } else {
            self
        }
    }

    /// The state after a key.
    pub open spec fn after_switcher_key(self, runtimes: RegistryModel, key: KeyEvent) -> AppModel {
        self.performed(runtimes, self.switcher_action(key)).recorded_if_open(runtimes)
    }

    /// Whether letting go of `code` accepts the selection: while quick switching, where some
    /// binding holds modifiers and the key is one of them.
    pub open spec fn release_accepts(self, code: KeyCode) -> bool {
        &&& self.switcher.active
        &&& self.switcher.mode == WorkspaceSwitcherMode::QuickSwitch
        &&& !direct_combos_bare(self.keybinds.switcher.forward)
        &&& release_matches(self.keybinds.switcher.forward, code)
    }

    /// The state scrolled by the mouse wheel to row `scroll`.
    #[verifier::opaque]
    pub open spec fn wheeled(self, runtimes: RegistryModel, scroll: usize) -> AppModel {
        self.with_scroll(scroll).with_selected(scroll).clamped_selection(runtimes)
    }

    /// What the mouse does over row `row`, or over none.
    #[verifier::opaque]
    pub open spec fn hovered(self, runtimes: RegistryModel, row: Option<int>) -> AppModel {
        match row {
            Some(i) => if self.switcher.selected == i {
                self
            } else {
                self.at_row(runtimes, i as usize)
            },
            None => self,
        }
    }

    /// What a click on row `row` does.
    #[verifier::opaque]
    pub open spec fn row_clicked(self, runtimes: RegistryModel, row: usize) -> AppModel {
        self.with_selected(row).with_target(runtimes).accepted(runtimes)
    }

    /// What a click does: on the close button and outside the popup it closes the switcher.
    #[verifier::opaque]
    pub open spec fn clicked(self, runtimes: RegistryModel, x: u16, y: u16) -> AppModel {
        let layout = switcher_layout(self.view, self.switcher.mode.searches());
        if covers(layout.close, x as int, y as int) {
            self.switcher_closed()
        } else {
            match self.row_at(runtimes, x, y) {
                Some(i) => self.row_clicked(runtimes, i as usize),
                None => if covers(layout.popup, x as int, y as int) {
                    self
                } else {
                    self.switcher_closed()
                },
            }
        }
    }

    /// What a mouse event does.
    pub open spec fn mouse_event(self, runtimes: RegistryModel, mouse: MouseEvent) -> AppModel {
        match mouse.kind {
            MouseEventKind::Moved => self.hovered(
                runtimes,
                self.row_at(runtimes, mouse.column, mouse.row),
            ),
            MouseEventKind::Down(MouseButton::Left) => self.clicked(
                runtimes,
                mouse.column,
                mouse.row,
            ),
            MouseEventKind::ScrollUp => self.wheeled(
                runtimes,
                minus(self.switcher.scroll as int, 3) as usize,
            ),
            MouseEventKind::ScrollDown => self.wheeled(
                runtimes,
                smaller(
                    self.switcher.scroll + 3,
                    self.row_layout(runtimes).max_scroll(),
                ) as usize,
            ),
            _ => self,
        }
    }

    /// The state after a mouse event.
    pub open spec fn after_switcher_mouse(
        self,
        runtimes: RegistryModel,
        mouse: MouseEvent,
    ) -> AppModel {
        self.mouse_event(runtimes, mouse).recorded_if_open(runtimes)
    }
}

/// Tests whether a command key counts with `modifiers`.
pub fn workspace_switcher_command_modifiers(state: &AppState, modifiers: KeyModifiers) -> (b: bool)
    ensures
        b == state@.keybinds.switcher.is_command(modifiers),
{
    state.keybinds.workspace_switcher.is_command(modifiers)
}

impl AppState {
    fn set_switcher_query(&mut self, query: String)
        ensures
            final(self)@ == old(self)@.with_query(query@),
            old(self)@.within_limits() ==> final(self)@.within_limits(),
    {
        self.workspace_switcher.query = query;
        proof {
            lemma_limits_kept(old(self)@, self@);
        }
    }

    fn edit_switcher_query(&mut self, terminal_runtimes: &TerminalRuntimeRegistry, query: String)
        requires
            old(self)@.within_limits(),
        ensures
            final(self)@ == old(self)@.query_edited(terminal_runtimes@, query@),
            final(self)@.within_limits(),
    {
        proof {
            reveal(AppModel::query_edited);
        }
        self.set_switcher_query(query);
        self.clamp_workspace_switcher_selection_from(terminal_runtimes);
    }

    fn go_to_switcher_row(&mut self, terminal_runtimes: &TerminalRuntimeRegistry, row: usize)
        requires
            old(self)@.within_limits(),
        ensures
            final(self)@ == old(self)@.at_row(terminal_runtimes@, row),
            final(self)@.within_limits(),
    {
        proof {
            reveal(AppModel::at_row);
        }
        self.select_switcher_row(row);
        self.ensure_workspace_switcher_selection_visible_from(terminal_runtimes);
        self.refresh_workspace_switcher_preview_from(terminal_runtimes);
    }

    fn wheel_switcher(&mut self, terminal_runtimes: &TerminalRuntimeRegistry, scroll: usize)
        requires
            old(self)@.within_limits(),
        ensures
            final(self)@ == old(self)@.wheeled(terminal_runtimes@, scroll),
            final(self)@.within_limits(),
    {
        proof {
            reveal(AppModel::wheeled);
        }
        self.scroll_switcher(scroll);
        self.select_switcher_row(scroll);
        self.clamp_workspace_switcher_selection_from(terminal_runtimes);
    }

    fn capture_switcher_target_if_open(&mut self, terminal_runtimes: &TerminalRuntimeRegistry)
        requires
            old(self)@.switcher.active ==> old(self)@.within_limits(),
        ensures
            final(self)@ == old(self)@.recorded_if_open(terminal_runtimes@),
    {
        if self.workspace_switcher.active {
            self.capture_workspace_switcher_target_from(terminal_runtimes);
        }
    }
}

proof fn lemma_far_move(s: AppModel, runtimes: RegistryModel, near: int, far: int)
    requires
        s.within_limits(),
        s.workspaces.len() <= usize::MAX,
        isize::MAX <= near <= far || far <= near <= isize::MIN,
    ensures
        s.moved_selection(runtimes, near) == s.moved_selection(runtimes, far),
{
    reveal(AppModel::moved_selection);
    reveal(AppModel::countable);
    crate::switcher_rows::lemma_switcher_rows_len(s, runtimes);
    assert(s.switcher_rows(runtimes).len() <= isize::MAX);
}

/// Moves the selection by `direction` pages.
pub fn move_workspace_switcher_page(
    state: &mut AppState,
    terminal_runtimes: &TerminalRuntimeRegistry,
    direction: isize,
)
    requires
        old(state)@.within_limits(),
    ensures
        final(state)@ == old(state)@.moved_selection(
            terminal_runtimes@,
            old(state)@.page(terminal_runtimes@) * direction,
        ),
        final(state)@.within_limits(),
{
    let layout = state.workspace_switcher_row_layout(terminal_runtimes);
    let visible: usize = layout.visible_count_at(state.workspace_switcher.scroll);
    let page: usize = if visible == 0 { 1 } else { visible };
    let ghost s = state@;
    let ghost rt = terminal_runtimes@;
    proof {
        assert(s.workspaces.len() == state.workspaces.len());
        assert(page <= isize::MAX) by {
            reveal(AppModel::countable);
            crate::switcher_rows::lemma_switcher_rows_len(s, rt);
            crate::row_layout::lemma_layout_wf(
                s.switcher_rows(rt),
                s.switcher_body().height as nat,
            );
            crate::row_layout::lemma_visible_count(layout@, s.switcher.scroll as int);
        }
        assert(page == s.page(rt)) by {
            reveal(AppModel::page);
        }
    }
    let delta: isize = match (page as isize).checked_mul(direction) {
        Some(delta) => delta,
        None => {
            proof {
                if direction > 0 {
                    assert(page * direction >= 0) by (nonlinear_arith)
                        requires
                            page >= 1,
                            direction > 0,
                    ;
                    lemma_far_move(s, rt, isize::MAX as int, page * direction);
                } else {
                    assert(page * direction <= 0) by (nonlinear_arith)
                        requires
                            page >= 1,
                            direction <= 0,
                    ;
                    lemma_far_move(s, rt, isize::MIN as int, page * direction);
                }
            }
            if direction > 0 {
                isize::MAX
            } else {
                isize::MIN
            }
        },
    };
    state.move_workspace_switcher_selection_from(terminal_runtimes, delta);
}

fn perform_switcher_edit(
    state: &mut AppState,
    terminal_runtimes: &TerminalRuntimeRegistry,
    action: ListAction,
)
    requires
        old(state)@.within_limits(),
        action is EraseChar || action is EraseQuery || action is TypeChar,
    ensures
        final(state)@ == old(state)@.typed(terminal_runtimes@, action),
        final(state)@.within_limits(),
{
    proof {
        reveal(AppModel::typed);
    }
    let mut query = state.workspace_switcher.query.clone();
    match action {
        ListAction::EraseChar => {
            let _ = query.pop();
        },
        ListAction::TypeChar(c) => query.push(c),
        _ => query.clear(),
    }
    state.edit_switcher_query(terminal_runtimes, query);
}

fn go_to_last_switcher_row(state: &mut AppState, terminal_runtimes: &TerminalRuntimeRegistry)
    requires
        old(state)@.within_limits(),
    ensures
        final(state)@ == old(state)@.at_row(
            terminal_runtimes@,
            old(state)@.last_row(terminal_runtimes@),
        ),
        final(state)@.within_limits(),
{
    proof {
        reveal(AppModel::last_row);
    }
    let count: usize = state.workspace_switcher_row_count_from(terminal_runtimes);
    state.go_to_switcher_row(terminal_runtimes, count.saturating_sub(1));
}

fn perform_switcher_step(
    state: &mut AppState,
    terminal_runtimes: &TerminalRuntimeRegistry,
    action: ListAction,
)
    requires
        old(state)@.within_limits(),
        action is NextRow || action is PreviousRow || action is FirstRow || action is LastRow,
    ensures
        final(state)@ == old(state)@.stepped(terminal_runtimes@, action),
        final(state)@.within_limits(),
{
    proof {
        reveal(AppModel::stepped);
    }
    match action {
        ListAction::NextRow => state.move_workspace_switcher_selection_from(terminal_runtimes, 1),
        ListAction::PreviousRow => state.move_workspace_switcher_selection_from(
            terminal_runtimes,
            -1,
        ),
        ListAction::FirstRow => state.go_to_switcher_row(terminal_runtimes, 0),
        _ => go_to_last_switcher_row(state, terminal_runtimes),
    }
}

fn perform_switcher_move(
    state: &mut AppState,
    terminal_runtimes: &TerminalRuntimeRegistry,
    action: ListAction,
)
    requires
        old(state)@.within_limits(),
        action is NextRow || action is PreviousRow || action is NextPage || action is PreviousPage
            || action is FirstRow || action is LastRow,
    ensures
        final(state)@ == old(state)@.stepped(terminal_runtimes@, action),
        final(state)@.within_limits(),
{
    proof {
        reveal(AppModel::stepped);
        let page = state@.page(terminal_runtimes@);
        assert(page * 1 == page && page * -1 == -page) by (nonlinear_arith);
    }
    match action {
        ListAction::NextPage => move_workspace_switcher_page(state, terminal_runtimes, 1),
        ListAction::PreviousPage => move_workspace_switcher_page(state, terminal_runtimes, -1),
        _ => perform_switcher_step(state, terminal_runtimes, action),
    }
}

fn perform_switcher_walk(
    state: &mut AppState,
    terminal_runtimes: &TerminalRuntimeRegistry,
    action: ListAction,
)
    requires
        old(state)@.within_limits(),
        action is CycleForward || action is CycleBackward || action is Expand || action is Collapse,
    ensures
        final(state)@ == old(state)@.walked(terminal_runtimes@, action),
        final(state)@.within_limits(),
{
    proof {
        reveal(AppModel::walked);
    }
    match action {
        ListAction::CycleForward => state.cycle_workspace_switcher_from(terminal_runtimes, 1),
        ListAction::CycleBackward => state.cycle_workspace_switcher_from(terminal_runtimes, -1),
        ListAction::Expand => state.expand_selected_workspace_switcher_workspace_from(
            terminal_runtimes,
        ),
        _ => state.collapse_selected_workspace_switcher_workspace_from(terminal_runtimes),
    }
}

fn perform_switcher_turn(
    state: &mut AppState,
    terminal_runtimes: &TerminalRuntimeRegistry,
    action: ListAction,
)
    requires
        old(state)@.within_limits(),
        action is Close || action is LeaveSearch || action is EnterSearch || action is Accept,
    ensures
        final(state)@ == old(state)@.performed(terminal_runtimes@, action),
        final(state)@.switcher.active ==> final(state)@.within_limits(),
{
    proof {
        reveal(AppModel::performed);
    }
    match action {
        ListAction::Close => close_workspace_switcher(state),
        ListAction::LeaveSearch => state.leave_workspace_switcher_search_from(terminal_runtimes),
        ListAction::EnterSearch => state.enter_workspace_switcher_search_from(terminal_runtimes),
        _ => {
            let _ = state.accept_workspace_switcher_selection_from(terminal_runtimes);
        },
    }
}

fn perform_switcher_action(
    state: &mut AppState,
    terminal_runtimes: &TerminalRuntimeRegistry,
    action: ListAction,
)
    requires
        old(state)@.within_limits(),
    ensures
        final(state)@ == old(state)@.performed(terminal_runtimes@, action),
        final(state)@.switcher.active ==> final(state)@.within_limits(),
{
    proof {
        reveal(AppModel::performed);
    }
    match action {
        ListAction::Nothing => {},
        ListAction::Close | ListAction::LeaveSearch | ListAction::EnterSearch | ListAction::Accept =>
            perform_switcher_turn(state, terminal_runtimes, action),
        ListAction::EraseChar | ListAction::EraseQuery | ListAction::TypeChar(_) =>
            perform_switcher_edit(state, terminal_runtimes, action),
        ListAction::CycleForward | ListAction::CycleBackward | ListAction::Expand
        | ListAction::Collapse => perform_switcher_walk(state, terminal_runtimes, action),
        _ => perform_switcher_move(state, terminal_runtimes, action),
    }
}

/// Handles a key while quick switching.
pub fn handle_quick_switch_key(
    state: &mut AppState,
    terminal_runtimes: &TerminalRuntimeRegistry,
    key: KeyEvent,
)
    requires
        old(state)@.within_limits(),
    ensures
        final(state)@ == old(state)@.performed(
            terminal_runtimes@,
            quick_action(key, old(state)@.keybinds.switcher, true),
        ).recorded_if_open(terminal_runtimes@),
{
    let action = quick_key_action(key, &state.keybinds.workspace_switcher, true);
    perform_switcher_action(state, terminal_runtimes, action);
    state.capture_switcher_target_if_open(terminal_runtimes);
}

/// Handles a key for the switcher.
pub fn handle_workspace_switcher_key(
    state: &mut AppState,
    terminal_runtimes: &TerminalRuntimeRegistry,
    key: KeyEvent,
)
    requires
        old(state)@.within_limits(),
    ensures
        final(state)@ == old(state)@.after_switcher_key(terminal_runtimes@, key),
{
    if !state.workspace_switcher.mode.search_visible() {
        handle_quick_switch_key(state, terminal_runtimes, key);
    } else {
        let action = search_key_action(
            key,
            state.workspace_switcher.query.as_str().is_empty(),
            ListAction::LeaveSearch,
        );
        perform_switcher_action(state, terminal_runtimes, action);
        state.capture_switcher_target_if_open(terminal_runtimes);
    }
}

/// Handles the release of a key: letting go of a modifier of the binding accepts the selection
/// of quick switching. Returns whether something was accepted.
pub fn handle_workspace_switcher_key_release(
    state: &mut AppState,
    terminal_runtimes: &TerminalRuntimeRegistry,
    key: TerminalKey,
) -> (b: bool)
    ensures
        b == (old(state)@.release_accepts(key.code) && old(state)@.accepts(terminal_runtimes@)),
        final(state)@ == (if old(state)@.release_accepts(key.code) {
            old(state)@.accepted(terminal_runtimes@)
        } else {
            old(state)@
        }),
{
    if !state.workspace_switcher.active || state.workspace_switcher.mode.search_visible() {
        return false;
    }
    if state.keybinds.workspace_switcher.forward.has_bare_direct_combos() {
        return false;
    }
    if !quick_switch_modifier_release_matches(&state.keybinds.workspace_switcher.forward, key) {
        return false;
    }
    state.accept_workspace_switcher_selection_from(terminal_runtimes)
}

fn hover_switcher(
    state: &mut AppState,
    terminal_runtimes: &TerminalRuntimeRegistry,
    row: Option<usize>,
)
    requires
        old(state)@.within_limits(),
    ensures
        final(state)@ == old(state)@.hovered(
            terminal_runtimes@,
            match row {
                Some(i) => Some(i as int),
                None => None,
            },
        ),
        final(state)@.within_limits(),
{
    proof {
        reveal(AppModel::hovered);
    }
    if let Some(i) = row {
        if state.workspace_switcher.selected != i {
            state.go_to_switcher_row(terminal_runtimes, i);
        }
    }
}

fn click_switcher_row(
    state: &mut AppState,
    terminal_runtimes: &TerminalRuntimeRegistry,
    row: usize,
)
    requires
        old(state)@.within_limits(),
    ensures
        final(state)@ == old(state)@.row_clicked(terminal_runtimes@, row),
        final(state)@.switcher.active ==> final(state)@.within_limits(),
{
    proof {
        reveal(AppModel::row_clicked);
    }
    state.select_switcher_row(row);
    state.capture_workspace_switcher_target_from(terminal_runtimes);
    let _ = state.accept_workspace_switcher_selection_from(terminal_runtimes);
}

fn click_switcher(
    state: &mut AppState,
    terminal_runtimes: &TerminalRuntimeRegistry,
    x: u16,
    y: u16,
)
    requires
        old(state)@.within_limits(),
    ensures
        final(state)@ == old(state)@.clicked(terminal_runtimes@, x, y),
        final(state)@.switcher.active ==> final(state)@.within_limits(),
{
    proof {
        reveal(AppModel::clicked);
    }
    if rect_contains(state.workspace_switcher_close_rect(), x, y) {
        close_workspace_switcher(state);
        return;
    }
    match state.workspace_switcher_row_index_at_from(terminal_runtimes, x, y) {
        Some(i) => click_switcher_row(state, terminal_runtimes, i),
        None => {
            if !state.workspace_switcher_popup_contains(x, y) {
                close_workspace_switcher(state);
            }
        },
    }
}

fn apply_switcher_mouse(
    state: &mut AppState,
    terminal_runtimes: &TerminalRuntimeRegistry,
    mouse: MouseEvent,
)
    requires
        old(state)@.within_limits(),
    ensures
        final(state)@ == old(state)@.mouse_event(terminal_runtimes@, mouse),
        final(state)@.switcher.active ==> final(state)@.within_limits(),
{
    match mouse.kind {
        MouseEventKind::Moved => {
            let row = state.workspace_switcher_row_index_at_from(
                terminal_runtimes,
                mouse.column,
                mouse.row,
            );
            hover_switcher(state, terminal_runtimes, row);
        },
        MouseEventKind::Down(MouseButton::Left) => {
            click_switcher(state, terminal_runtimes, mouse.column, mouse.row);
        },
        MouseEventKind::ScrollUp => {
            let scroll: usize = state.workspace_switcher.scroll.saturating_sub(3);
            state.wheel_switcher(terminal_runtimes, scroll);
        },
        MouseEventKind::ScrollDown => {
            let max: usize = state.workspace_switcher_max_scroll_from(terminal_runtimes);
            let wanted: usize = state.workspace_switcher.scroll.saturating_add(3);
            state.wheel_switcher(terminal_runtimes, if wanted < max { wanted } else { max });
        },
        _ => {},
    }
}

/// Handles a mouse event for the switcher.
pub fn handle_workspace_switcher_mouse(
    state: &mut AppState,
    terminal_runtimes: &TerminalRuntimeRegistry,
    mouse: MouseEvent,
)
    requires
        old(state)@.within_limits(),
    ensures
        final(state)@ == old(state)@.after_switcher_mouse(terminal_runtimes@, mouse),
{
    apply_switcher_mouse(state, terminal_runtimes, mouse);
    state.capture_switcher_target_if_open(terminal_runtimes);
}

} // verus!
