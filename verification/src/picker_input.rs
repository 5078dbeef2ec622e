//! Keys and mouse events for the workspace picker.

use vstd::prelude::*;
use crate::actions::{
    quick_action, quick_key_action, search_action, search_key_action, ListAction,
};
use crate::geometry::{covers, larger, minus, popup_of, rect_contains, smaller};
use crate::input::{
    all_direct_and_bare, quick_switch_modifier_release_matches, release_matches, KeyCode, KeyEvent,
    KeyModifiers, MouseButton, MouseEvent, MouseEventKind, TerminalKey,
};
use crate::navigation::lemma_limits_kept;
use crate::picker_session::close_workspace_picker;
use crate::state::{AppModel, AppState, Mode, PickerModel, WorkspacePickerMode};
use crate::terminal::{RegistryModel, TerminalRuntimeRegistry};
use crate::text::without_last;

verus! {

impl AppModel {
    /// The state with another query in the picker.
    pub open spec fn with_picker_query(self, query: Seq<char>) -> AppModel {
        self.with_picker(PickerModel { query, ..self.picker })
    }

    /// The state after an edit of the query of the picker.
    #[verifier::opaque]
    pub open spec fn picker_query_edited(self, runtimes: RegistryModel, query: Seq<char>) -> AppModel {
        self.with_picker_query(query).picker_clamped(runtimes)
    }

    /// The last row of the picker.
    #[verifier::opaque]
    pub open spec fn picker_last_row(self, runtimes: RegistryModel) -> usize {
        minus(self.picker_rows(runtimes).len() as int, 1) as usize
    }

    /// The number of rows that a page of the picker holds.
    #[verifier::opaque]
    pub open spec fn picker_page(self) -> int {
        larger(self.picker_body().height as int, 1)
    }

    /// What a key means to the picker. The escape key leads from a search among recent
    /// workspaces back to quick switching.
    pub open spec fn picker_action(self, key: KeyEvent) -> ListAction {
        match self.picker.mode {
            WorkspacePickerMode::QuickSwitch => quick_action(key, self.keybinds.quick_switch, false),
            WorkspacePickerMode::QuickSwitchSearch => search_action(
                key,
                self.picker.query.len() == 0,
                ListAction::LeaveSearch,
            ),
            WorkspacePickerMode::Search => search_action(
                key,
                self.picker.query.len() == 0,
                ListAction::Close,
            ),
        }
    }

    /// The state of the picker after an action that goes to another row.
    #[verifier::opaque]
    pub open spec fn picker_stepped(self, runtimes: RegistryModel, action: ListAction) -> AppModel {
        match action {
            ListAction::NextRow => self.picker_moved(runtimes, 1),
            ListAction::PreviousRow => self.picker_moved(runtimes, -1),
            ListAction::NextPage => self.picker_moved(runtimes, self.picker_page()),
            ListAction::PreviousPage => self.picker_moved(runtimes, -self.picker_page()),
            ListAction::FirstRow => self.picked(runtimes, 0),
            _ => self.picked(runtimes, self.picker_last_row(runtimes)),
        }
    }

    /// The state of the picker after an action that goes to another workspace or shows or hides
    /// tabs.
    #[verifier::opaque]
    pub open spec fn picker_walked(self, runtimes: RegistryModel, action: ListAction) -> AppModel {
        match action {
            ListAction::CycleForward => self.picker_cycled(runtimes, 1),
            ListAction::CycleBackward => self.picker_cycled(runtimes, -1),
            ListAction::Expand => self.picker_expanded(runtimes),
            _ => self.picker_collapsed(runtimes),
        }
    }

    /// The state of the picker after an action that edits the query.
    #[verifier::opaque]
    pub open spec fn picker_typed(self, runtimes: RegistryModel, action: ListAction) -> AppModel {
        match action {
            ListAction::EraseChar => self.picker_query_edited(
                runtimes,
                without_last(self.picker.query),
            ),
            ListAction::TypeChar(c) => self.picker_query_edited(runtimes, self.picker.query.push(c)),
            _ => self.picker_query_edited(runtimes, Seq::<char>::empty()),
        }
    }

    /// The state after an action of the picker.
    #[verifier::opaque]
    pub open spec fn picker_performed(self, runtimes: RegistryModel, action: ListAction) -> AppModel {
        match action {
            ListAction::Nothing => self,
            ListAction::Close => self.picker_closed(),
            ListAction::LeaveSearch => self.picker_search_left(runtimes),
            ListAction::EnterSearch => self.picker_search_entered(runtimes),
            ListAction::Accept => self.picker_accepted(runtimes),
            ListAction::EraseChar | ListAction::EraseQuery | ListAction::TypeChar(_) =>
                self.picker_typed(runtimes, action),
            ListAction::CycleForward | ListAction::CycleBackward | ListAction::Expand
            | ListAction::Collapse => self.picker_walked(runtimes, action),
            _ => self.picker_stepped(runtimes, action),
        }
    }

    /// Whether letting go of `code` accepts the selection of the picker: while quick switching,
    /// where not every binding is a direct combo without modifiers and the key is a modifier of
    /// one of them.
    pub open spec fn picker_release_accepts(self, code: KeyCode) -> bool {
        &&& self.mode == Mode::WorkspacePicker
        &&& self.picker.mode == WorkspacePickerMode::QuickSwitch
        &&& !all_direct_and_bare(self.keybinds.quick_switch.forward)
        &&& release_matches(self.keybinds.quick_switch.forward, code)
    }

    /// The row of the picker at the cell (`col`, `row`).
    #[verifier::opaque]
    pub open spec fn picker_row_at(self, runtimes: RegistryModel, col: u16, row: u16) -> Option<
        usize,
    > {
        let body = self.picker_body();
        let i = smaller(self.picker.scroll + (row - body.y), usize::MAX as int);
        if covers(body, col as int, row as int) && i < self.picker_rows(runtimes).len() {
            Some(i as usize)
        } else {
            None
        }
    }

    /// The state of the picker scrolled by the mouse wheel to row `scroll`.
    #[verifier::opaque]
    pub open spec fn picker_wheeled(self, runtimes: RegistryModel, scroll: usize) -> AppModel {
        self.with_picker_scroll(scroll).with_picked(scroll).picker_clamped(runtimes)
    }

    /// What the mouse does over row `row` of the picker, or over none.
    #[verifier::opaque]
    pub open spec fn picker_hovered(self, runtimes: RegistryModel, row: Option<usize>) -> AppModel {
        match row {
            Some(i) => if self.picker.selected == i {
                self
            } else {
                self.picked(runtimes, i)
            },
            None => self,
        }
    }

    /// What a click in the picker does: outside the popup it closes the picker.
    #[verifier::opaque]
    pub open spec fn picker_clicked(self, runtimes: RegistryModel, x: u16, y: u16) -> AppModel {
        match self.picker_row_at(runtimes, x, y) {
            Some(i) => self.with_picked(i).picker_accepted(runtimes),
            None => if covers(popup_of(self.view), x as int, y as int) {
                self
            } else {
                self.picker_closed()
            },
        }
    }

    /// The state after a mouse event for the picker.
    pub open spec fn after_picker_mouse(self, runtimes: RegistryModel, mouse: MouseEvent) -> AppModel {
        match mouse.kind {
            MouseEventKind::Moved => self.picker_hovered(
                runtimes,
                self.picker_row_at(runtimes, mouse.column, mouse.row),
            ),
            MouseEventKind::Down(MouseButton::Left) => self.picker_clicked(
                runtimes,
                mouse.column,
                mouse.row,
            ),
            MouseEventKind::ScrollUp => self.picker_wheeled(
                runtimes,
                minus(self.picker.scroll as int, 3) as usize,
            ),
            MouseEventKind::ScrollDown => self.picker_wheeled(
                runtimes,
                smaller(
                    self.picker.scroll + 3,
                    self.picker_max_scroll(runtimes, self.picker_body().height as int),
                ) as usize,
            ),
            _ => self,
        }
    }
}

/// Tests whether a command key of quick switching counts with `modifiers`.
pub fn quick_switch_command_modifiers(state: &AppState, modifiers: KeyModifiers) -> (b: bool)
    ensures
        b == state@.keybinds.quick_switch.is_command(modifiers),
{
    state.keybinds.quick_switch_workspace.is_command(modifiers)
}

impl AppState {
    fn set_picker_query(&mut self, query: String)
        ensures
            final(self)@ == old(self)@.with_picker_query(query@),
            old(self)@.picker_within_limits() ==> final(self)@.picker_within_limits(),
    {
        self.workspace_picker.query = query;
        proof {
            lemma_limits_kept(old(self)@, self@);
        }
    }

    fn edit_picker_query(&mut self, terminal_runtimes: &TerminalRuntimeRegistry, query: String)
        requires
            old(self)@.picker_within_limits(),
        ensures
            final(self)@ == old(self)@.picker_query_edited(terminal_runtimes@, query@),
    {
        proof {
            reveal(AppModel::picker_query_edited);
        }
        self.set_picker_query(query);
        self.clamp_workspace_picker_selection_from(terminal_runtimes);
    }

    fn wheel_picker(&mut self, terminal_runtimes: &TerminalRuntimeRegistry, scroll: usize)
        requires
            old(self)@.picker_within_limits(),
        ensures
            final(self)@ == old(self)@.picker_wheeled(terminal_runtimes@, scroll),
    {
        proof {
            reveal(AppModel::picker_wheeled);
        }
        self.scroll_picker(scroll);
        self.select_picker_row(scroll);
        self.clamp_workspace_picker_selection_from(terminal_runtimes);
    }

    fn picker_page_height(&self) -> (r: u16)
        requires
            self@.picker_within_limits(),
        ensures
            r == self@.picker_page(),
    {
        proof {
            reveal(AppModel::picker_page);
        }
        let height: u16 = self.workspace_picker_body_rect().height;
        if height < 1 {
            1
        } else {
            height
        }
    }

    /// The row at the cell (`col`, `row`).
    pub fn workspace_picker_row_index_at_from(
        &self,
        terminal_runtimes: &TerminalRuntimeRegistry,
        col: u16,
        row: u16,
    ) -> (r: Option<usize>)
        requires
            self@.picker_within_limits(),
        ensures
            r == self@.picker_row_at(terminal_runtimes@, col, row),
    {
        proof {
            reveal(AppModel::picker_row_at);
        }
        let body = self.workspace_picker_body_rect();
        if !rect_contains(body, col, row) {
            return None;
        }
        let offset: usize = row.saturating_sub(body.y) as usize;
        let i: usize = self.workspace_picker.scroll.saturating_add(offset);
        if i < self.workspace_picker_row_count_from(terminal_runtimes) {
            Some(i)
        } else {
            None
        }
    }
}

fn perform_picker_edit(
    state: &mut AppState,
    terminal_runtimes: &TerminalRuntimeRegistry,
    action: ListAction,
)
    requires
        old(state)@.picker_within_limits(),
        action is EraseChar || action is EraseQuery || action is TypeChar,
    ensures
        final(state)@ == old(state)@.picker_typed(terminal_runtimes@, action),
{
    proof {
        reveal(AppModel::picker_typed);
    }
    let mut query = state.workspace_picker.query.clone();
    match action {
        ListAction::EraseChar => {
            let _ = query.pop();
        },
        ListAction::TypeChar(c) => query.push(c),
        _ => query.clear(),
    }
    state.edit_picker_query(terminal_runtimes, query);
}

fn turn_picker_page(state: &mut AppState, terminal_runtimes: &TerminalRuntimeRegistry, down: bool)
    requires
        old(state)@.picker_within_limits(),
    ensures
        final(state)@ == old(state)@.picker_moved(
            terminal_runtimes@,
            if down {
                old(state)@.picker_page()
            } else {
                -old(state)@.picker_page()
            },
        ),
{
    let page: u16 = state.picker_page_height();
    let delta: isize = if down {
        page as isize
    } else {
        -(page as isize)
    };
    state.move_workspace_picker_selection_from(terminal_runtimes, delta);
}

fn pick_last_row(state: &mut AppState, terminal_runtimes: &TerminalRuntimeRegistry)
    requires
        old(state)@.picker_within_limits(),
    ensures
        final(state)@ == old(state)@.picked(
            terminal_runtimes@,
            old(state)@.picker_last_row(terminal_runtimes@),
        ),
{
    proof {
        reveal(AppModel::picker_last_row);
    }
    let count: usize = state.workspace_picker_row_count_from(terminal_runtimes);
    state.pick_row(terminal_runtimes, count.saturating_sub(1));
}

fn perform_picker_step(
    state: &mut AppState,
    terminal_runtimes: &TerminalRuntimeRegistry,
    action: ListAction,
)
    requires
        old(state)@.picker_within_limits(),
        action is NextRow || action is PreviousRow || action is FirstRow,
    ensures
        final(state)@ == old(state)@.picker_stepped(terminal_runtimes@, action),
{
    proof {
        reveal(AppModel::picker_stepped);
    }
    match action {
        ListAction::NextRow => state.move_workspace_picker_selection_from(terminal_runtimes, 1),
        ListAction::PreviousRow => state.move_workspace_picker_selection_from(terminal_runtimes, -1),
        _ => state.pick_row(terminal_runtimes, 0),
    }
}

fn perform_picker_move(
    state: &mut AppState,
    terminal_runtimes: &TerminalRuntimeRegistry,
    action: ListAction,
)
    requires
        old(state)@.picker_within_limits(),
        action is NextRow || action is PreviousRow || action is NextPage || action is PreviousPage
            || action is FirstRow || action is LastRow,
    ensures
        final(state)@ == old(state)@.picker_stepped(terminal_runtimes@, action),
{
    proof {
        reveal(AppModel::picker_stepped);
    }
    match action {
        ListAction::NextPage => turn_picker_page(state, terminal_runtimes, true),
        ListAction::PreviousPage => turn_picker_page(state, terminal_runtimes, false),
        ListAction::LastRow => pick_last_row(state, terminal_runtimes),
        _ => perform_picker_step(state, terminal_runtimes, action),
    }
}

fn perform_picker_walk(
    state: &mut AppState,
    terminal_runtimes: &TerminalRuntimeRegistry,
    action: ListAction,
)
    requires
        old(state)@.picker_within_limits(),
        action is CycleForward || action is CycleBackward || action is Expand || action is Collapse,
    ensures
        final(state)@ == old(state)@.picker_walked(terminal_runtimes@, action),
{
    proof {
        reveal(AppModel::picker_walked);
    }
    match action {
        ListAction::CycleForward => state.cycle_quick_switch_workspace_from(terminal_runtimes, 1),
        ListAction::CycleBackward => state.cycle_quick_switch_workspace_from(terminal_runtimes, -1),
        ListAction::Expand => state.expand_selected_workspace_picker_workspace_from(
            terminal_runtimes,
        ),
        _ => state.collapse_selected_workspace_picker_workspace_from(terminal_runtimes),
    }
}

fn perform_picker_turn(
    state: &mut AppState,
    terminal_runtimes: &TerminalRuntimeRegistry,
    action: ListAction,
)
    requires
        old(state)@.picker_within_limits(),
        action is Close || action is LeaveSearch || action is EnterSearch || action is Accept,
    ensures
        final(state)@ == old(state)@.picker_performed(terminal_runtimes@, action),
{
    proof {
        reveal(AppModel::picker_performed);
    }
    match action {
        ListAction::Close => close_workspace_picker(state),
        ListAction::LeaveSearch => state.leave_quick_switch_search_from(terminal_runtimes),
        ListAction::EnterSearch => state.enter_quick_switch_search_from(terminal_runtimes),
        _ => {
            let _ = state.accept_workspace_picker_selection_from(terminal_runtimes);
        },
    }
}

fn perform_picker_action(
    state: &mut AppState,
    terminal_runtimes: &TerminalRuntimeRegistry,
    action: ListAction,
)
    requires
        old(state)@.picker_within_limits(),
    ensures
        final(state)@ == old(state)@.picker_performed(terminal_runtimes@, action),
{
    proof {
        reveal(AppModel::picker_performed);
    }
    match action {
        ListAction::Nothing => {},
        ListAction::Close | ListAction::LeaveSearch | ListAction::EnterSearch | ListAction::Accept =>
            perform_picker_turn(state, terminal_runtimes, action),
        ListAction::EraseChar | ListAction::EraseQuery | ListAction::TypeChar(_) =>
            perform_picker_edit(state, terminal_runtimes, action),
        ListAction::CycleForward | ListAction::CycleBackward | ListAction::Expand
        | ListAction::Collapse => perform_picker_walk(state, terminal_runtimes, action),
        _ => perform_picker_move(state, terminal_runtimes, action),
    }
}

/// Handles a key while quick switching.
pub fn handle_quick_switch_workspace_picker_key(
    state: &mut AppState,
    terminal_runtimes: &TerminalRuntimeRegistry,
    key: KeyEvent,
)
    requires
        old(state)@.picker_within_limits(),
    ensures
        final(state)@ == old(state)@.picker_performed(
            terminal_runtimes@,
            quick_action(key, old(state)@.keybinds.quick_switch, false),
        ),
{
    let action = quick_key_action(key, &state.keybinds.quick_switch_workspace, false);
    perform_picker_action(state, terminal_runtimes, action);
}

/// Handles a key for the picker.
pub fn handle_workspace_picker_key(
    state: &mut AppState,
    terminal_runtimes: &TerminalRuntimeRegistry,
    key: KeyEvent,
)
    requires
        old(state)@.picker_within_limits(),
    ensures
        final(state)@ == old(state)@.picker_performed(
            terminal_runtimes@,
            old(state)@.picker_action(key),
        ),
{
    let escape = match state.workspace_picker.mode {
        WorkspacePickerMode::QuickSwitch => {
            handle_quick_switch_workspace_picker_key(state, terminal_runtimes, key);
            return;
        },
        WorkspacePickerMode::QuickSwitchSearch => ListAction::LeaveSearch,
        WorkspacePickerMode::Search => ListAction::Close,
    };
    let action = search_key_action(key, state.workspace_picker.query.as_str().is_empty(), escape);
    perform_picker_action(state, terminal_runtimes, action);
}

/// Handles the release of a key: letting go of a modifier of the binding accepts the selection
/// of quick switching. Returns whether something was accepted.
pub fn handle_quick_switch_key_release(
    state: &mut AppState,
    terminal_runtimes: &TerminalRuntimeRegistry,
    key: TerminalKey,
) -> (b: bool)
    requires
        old(state)@.countable(),
    ensures
        b == (old(state)@.picker_release_accepts(key.code) && old(state)@.picker_accepts(
            terminal_runtimes@,
        )),
        final(state)@ == (if old(state)@.picker_release_accepts(key.code) {
            old(state)@.picker_accepted(terminal_runtimes@)
        } else {
            old(state)@
        }),
{
    if state.mode != Mode::WorkspacePicker || state.workspace_picker.mode
        != WorkspacePickerMode::QuickSwitch {
        return false;
    }
    if state.keybinds.quick_switch_workspace.forward.is_direct_and_bare() {
        return false;
    }
    if !quick_switch_modifier_release_matches(&state.keybinds.quick_switch_workspace.forward, key) {
        return false;
    }
    state.accept_workspace_picker_selection_from(terminal_runtimes)
}

fn hover_picker(
    state: &mut AppState,
    terminal_runtimes: &TerminalRuntimeRegistry,
    row: Option<usize>,
)
    requires
        old(state)@.picker_within_limits(),
    ensures
        final(state)@ == old(state)@.picker_hovered(terminal_runtimes@, row),
{
    proof {
        reveal(AppModel::picker_hovered);
    }
    if let Some(i) = row {
        if state.workspace_picker.selected != i {
            state.pick_row(terminal_runtimes, i);
        }
    }
}

fn click_picker(
    state: &mut AppState,
    terminal_runtimes: &TerminalRuntimeRegistry,
    x: u16,
    y: u16,
)
    requires
        old(state)@.picker_within_limits(),
    ensures
        final(state)@ == old(state)@.picker_clicked(terminal_runtimes@, x, y),
{
    proof {
        reveal(AppModel::picker_clicked);
    }
    match state.workspace_picker_row_index_at_from(terminal_runtimes, x, y) {
        Some(i) => {
            state.select_picker_row(i);
            let _ = state.accept_workspace_picker_selection_from(terminal_runtimes);
        },
        None => {
            if !state.workspace_picker_popup_contains(x, y) {
                close_workspace_picker(state);
            }
        },
    }
}

fn wheel_picker_down(state: &mut AppState, terminal_runtimes: &TerminalRuntimeRegistry)
    requires
        old(state)@.picker_within_limits(),
    ensures
        final(state)@ == old(state)@.picker_wheeled(
            terminal_runtimes@,
            smaller(
                old(state)@.picker.scroll + 3,
                old(state)@.picker_max_scroll(
                    terminal_runtimes@,
                    old(state)@.picker_body().height as int,
                ),
            ) as usize,
        ),
{
    let viewport: usize = state.workspace_picker_body_rect().height as usize;
    let max: usize = state.workspace_picker_max_scroll_from(terminal_runtimes, viewport);
    let wanted: usize = state.workspace_picker.scroll.saturating_add(3);
    state.wheel_picker(terminal_runtimes, if wanted < max { wanted } else { max });
}

/// Handles a mouse event for the picker.
pub fn handle_workspace_picker_mouse(
    state: &mut AppState,
    terminal_runtimes: &TerminalRuntimeRegistry,
    mouse: MouseEvent,
)
    requires
        old(state)@.picker_within_limits(),
    ensures
        final(state)@ == old(state)@.after_picker_mouse(terminal_runtimes@, mouse),
{
    match mouse.kind {
        MouseEventKind::Moved => {
            let row = state.workspace_picker_row_index_at_from(
                terminal_runtimes,
                mouse.column,
                mouse.row,
            );
            hover_picker(state, terminal_runtimes, row);
        },
        MouseEventKind::Down(MouseButton::Left) => {
            click_picker(state, terminal_runtimes, mouse.column, mouse.row);
        },
        MouseEventKind::ScrollUp => {
            let scroll: usize = state.workspace_picker.scroll.saturating_sub(3);
            state.wheel_picker(terminal_runtimes, scroll);
        },
        MouseEventKind::ScrollDown => {
            wheel_picker_down(state, terminal_runtimes);
        },
        _ => {},
    }
}

} // verus!
