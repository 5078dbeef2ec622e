//! Opening, searching, accepting and closing the workspace picker.

use vstd::prelude::*;
use crate::navigation::lemma_limits_kept;
use crate::picker::picker_position;
use crate::picker_rows::{PickerRowModel, WorkspacePickerTarget};
use crate::state::{AppModel, AppState, Mode, WorkspacePickerMode};
use crate::switcher_model::or_zero;
use crate::terminal::{RegistryModel, TerminalRuntimeRegistry};
use crate::views::views;

verus! {

impl AppState {
    fn show_picker(&mut self, mode: WorkspacePickerMode)
        ensures
            final(self)@ == old(self)@.picker_shown(mode),
            old(self)@.picker_within_limits() ==> final(self)@.picker_within_limits(),
    {
        self.workspace_picker.mode = mode;
        self.workspace_picker.query.clear();
        self.workspace_picker.scroll = 0;
        self.workspace_picker.expanded_workspaces.clear();
        self.mode = Mode::WorkspacePicker;
        proof {
            lemma_limits_kept(old(self)@, self@);
        }
    }

    fn find_active_picker_row(&self, terminal_runtimes: &TerminalRuntimeRegistry) -> (r: usize)
        requires
            self@.countable(),
        ensures
            r == self@.picker_row_of_active(terminal_runtimes@),
    {
        proof {
            reveal(AppModel::picker_row_of_active);
        }
        let target: usize = match self.active {
            Some(active) => active,
            None => self.selected,
        };
        let rows = self.workspace_picker_rows_from(terminal_runtimes);
        let ghost p = |row: PickerRowModel| row.ws_idx == target;
        let mut i: usize = 0;
        while i < rows.len()
            invariant
                i <= rows@.len(),
                p == (|row: PickerRowModel| row.ws_idx == target),
                self@.picker_row_of_active(terminal_runtimes@) == or_zero(
                    picker_position(views(rows@), p, 0),
                ) as usize,
                picker_position(views(rows@), p, 0) == picker_position(views(rows@), p, i as int),
            decreases rows@.len() - i,
        {
            proof {
                assert(views(rows@)[i as int] == rows@[i as int]@);
            }
            if rows[i].ws_idx == target {
                return i;
            }
            i += 1;
        }
        0
    }

    fn find_other_picker_row(&self, terminal_runtimes: &TerminalRuntimeRegistry) -> (r: usize)
        requires
            self@.countable(),
        ensures
            r == self@.picker_row_of_other(terminal_runtimes@),
    {
        proof {
            reveal(AppModel::picker_row_of_other);
        }
        let active: usize = match self.active {
            Some(active) => active,
            None => return 0,
        };
        let rows = self.workspace_picker_rows_from(terminal_runtimes);
        let ghost p = |row: PickerRowModel| row.ws_idx != active && !row.is_tab;
        let mut i: usize = 0;
        while i < rows.len()
            invariant
                i <= rows@.len(),
                p == (|row: PickerRowModel| row.ws_idx != active && !row.is_tab),
                self@.picker_row_of_other(terminal_runtimes@) == or_zero(
                    picker_position(views(rows@), p, 0),
                ) as usize,
                picker_position(views(rows@), p, 0) == picker_position(views(rows@), p, i as int),
            decreases rows@.len() - i,
        {
            proof {
                assert(views(rows@)[i as int] == rows@[i as int]@);
            }
            if rows[i].ws_idx != active && !rows[i].is_tab {
                return i;
            }
            i += 1;
        }
        0
    }

    /// Opens the picker for searching, on the active workspace.
    pub fn open_workspace_picker_from(&mut self, terminal_runtimes: &TerminalRuntimeRegistry)
        requires
            old(self)@.picker_within_limits(),
        ensures
            final(self)@ == old(self)@.picker_opened(terminal_runtimes@),
            final(self)@.picker_within_limits(),
    {
        proof {
            reveal(AppModel::picker_opened);
        }
        self.show_picker(WorkspacePickerMode::Search);
        let row: usize = self.find_active_picker_row(terminal_runtimes);
        self.pick_row(terminal_runtimes, row);
    }

    /// Opens the picker without any terminal.
    pub fn open_workspace_picker(&mut self)
        requires
            old(self)@.picker_within_limits(),
        ensures
            final(self)@ == old(self)@.picker_opened(RegistryModel::empty()),
            final(self)@.picker_within_limits(),
    {
        self.open_workspace_picker_from(&TerminalRuntimeRegistry::new());
    }

    /// Opens the picker for quick switching, on the first workspace that is not the active one.
    pub fn open_quick_switch_workspace_from(&mut self, terminal_runtimes: &TerminalRuntimeRegistry)
        requires
            old(self)@.picker_within_limits(),
        ensures
            final(self)@ == old(self)@.quick_switch_opened(terminal_runtimes@),
            final(self)@.picker_within_limits(),
    {
        proof {
            reveal(AppModel::quick_switch_opened);
        }
        self.show_picker(WorkspacePickerMode::QuickSwitch);
        let row: usize = self.find_other_picker_row(terminal_runtimes);
        self.pick_row(terminal_runtimes, row);
    }

    fn set_picker_mode(&mut self, mode: WorkspacePickerMode)
        ensures
            final(self)@ == old(self)@.with_picker_mode(mode),
            old(self)@.picker_within_limits() ==> final(self)@.picker_within_limits(),
    {
        self.workspace_picker.mode = mode;
        self.workspace_picker.query.clear();
        proof {
            lemma_limits_kept(old(self)@, self@);
        }
    }

    fn collapse_picker(&mut self)
        ensures
            final(self)@ == old(self)@.with_picker_expanded(Set::<Seq<char>>::empty()),
            old(self)@.picker_within_limits() ==> final(self)@.picker_within_limits(),
    {
        self.workspace_picker.expanded_workspaces.clear();
        proof {
            lemma_limits_kept(old(self)@, self@);
        }
    }

    /// Goes from quick switching to searching.
    pub fn enter_quick_switch_search_from(&mut self, terminal_runtimes: &TerminalRuntimeRegistry)
        requires
            old(self)@.picker_within_limits(),
        ensures
            final(self)@ == old(self)@.picker_search_entered(terminal_runtimes@),
            final(self)@.picker_within_limits(),
    {
        proof {
            reveal(AppModel::picker_search_entered);
        }
        self.set_picker_mode(WorkspacePickerMode::QuickSwitchSearch);
        self.collapse_picker();
        self.clamp_workspace_picker_selection_from(terminal_runtimes);
    }

    /// Goes back from searching to quick switching.
    pub fn leave_quick_switch_search_from(&mut self, terminal_runtimes: &TerminalRuntimeRegistry)
        requires
            old(self)@.picker_within_limits(),
        ensures
            final(self)@ == old(self)@.picker_search_left(terminal_runtimes@),
            final(self)@.picker_within_limits(),
    {
        proof {
            reveal(AppModel::picker_search_left);
        }
        self.set_picker_mode(WorkspacePickerMode::QuickSwitch);
        self.clamp_workspace_picker_selection_from(terminal_runtimes);
    }

    fn enter_terminal_mode(&mut self)
        ensures
            final(self)@ == (AppModel { mode: Mode::Terminal, ..old(self)@ }),
    {
        self.mode = Mode::Terminal;
    }

    /// Focuses the workspace or tab `target`, and returns whether it is there.
    pub fn focus_workspace_picker_target(&mut self, target: WorkspacePickerTarget) -> (b: bool)
        ensures
            b == old(self)@.can_pick(target),
            final(self)@ == old(self)@.picked_focused(target),
    {
        proof {
            reveal(AppModel::picked_focused);
        }
        match target {
            WorkspacePickerTarget::Workspace { ws_idx } => {
                if ws_idx >= self.workspaces.len() {
                    return false;
                }
                self.switch_workspace(ws_idx);
                self.enter_terminal_mode();
                true
            },
            WorkspacePickerTarget::Tab { ws_idx, tab_idx } => {
                if self.switch_workspace_tab(ws_idx, tab_idx) {
                    self.enter_terminal_mode();
                    true
                } else {
                    proof {
                        assert(self@ == old(self)@);
                    }
                    false
                }
            },
        }
    }

    /// Accepts the selection, and returns whether what it stands for is there.
    pub fn accept_workspace_picker_selection_from(
        &mut self,
        terminal_runtimes: &TerminalRuntimeRegistry,
    ) -> (b: bool)
        requires
            old(self)@.countable(),
        ensures
            b == old(self)@.picker_accepts(terminal_runtimes@),
            final(self)@ == old(self)@.picker_accepted(terminal_runtimes@),
    {
        proof {
            reveal(AppModel::picker_accepts);
            reveal(AppModel::picker_accepted);
        }
        match self.selected_picker_target(terminal_runtimes) {
            Some(target) => self.focus_workspace_picker_target(target),
            None => false,
        }
    }
}

/// Closes the picker.
pub fn close_workspace_picker(state: &mut AppState)
    ensures
        final(state)@ == old(state)@.picker_closed(),
{
    if state.active.is_some() {
        state.mode = Mode::Terminal;
    } else {
        state.mode = Mode::Navigate;
    }
}

} // verus!
